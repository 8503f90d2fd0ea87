//! Asset registry, position ledger and the local operations on them:
//! deposit, repay, withdraw, liquidate, and the administrator's actions.
use vstd::prelude::*;

use crate::error::ErrorCode;
use crate::risk::{
    calculate_health_factor, calculate_liquidation_amount, calculate_usd_value, check_rate_limit,
    health_factor_defined, health_factor_of, rate_limited, seize_defined, seize_value,
    usd_value, usd_value_defined, LIQUIDATION_BONUS, MAX_LTV, MIN_HEALTH_FACTOR, PRECISION,
    VALUE_DECIMALS,
};
use crate::state::{
    is_unset_key, key_is_unset, keys_equal, no_duplicates, unset_key, AssetAddedEvent,
    AssetConfig, AssetInfo, DepositEvent, InitStoreParams, Key, LendingPool, LiquidationEvent,
    OAppStore, PriceQuote, ProtocolPausedEvent, ProtocolUnpausedEvent, RepayEvent, UserPosition,
    WithdrawEvent, MAX_SUPPORTED_CHAINS,
};

verus! {

/// USD values and health factor of a position, recomputed from its balances.
#[derive(Clone, Copy, Debug)]
pub struct Valuation {
    pub collateral_value_usd: u128,
    pub borrow_value_usd: u128,
    pub health_factor: u128,
}

/// Valuation of `collateral` and `debt` base units of `asset` at `quote`,
/// weighting collateral by the asset's own liquidation threshold.
pub open spec fn valuation_of(collateral: u64, debt: u64, asset: AssetInfo, quote: PriceQuote) -> Result<Valuation, ErrorCode> {
    if !usd_value_defined(collateral, quote.collateral_price, asset.decimals) || !usd_value_defined(
        debt,
        quote.borrow_price,
        asset.decimals,
    ) {
        Err(ErrorCode::InvalidAmount)
    } else {
        let c = usd_value(collateral, quote.collateral_price, asset.decimals) as u128;
        let b = usd_value(debt, quote.borrow_price, asset.decimals) as u128;
        let t = asset.liquidation_threshold;
        if !health_factor_defined(c, b, t) {
            Err(ErrorCode::MathOverflow)
        } else {
            Ok(Valuation { collateral_value_usd: c, borrow_value_usd: b, health_factor: health_factor_of(c, b, t) as u128 })
        }
    }
}

/// `position` with new balances, the risk figures of `v`, and `stamp` as the
/// time of its last action.
pub open spec fn with_balances(position: UserPosition, collateral: u64, debt: u64, v: Valuation, stamp: i64) -> UserPosition {
    UserPosition {
        collateral_balance: collateral,
        borrow_balance: debt,
        total_collateral_value_usd: v.collateral_value_usd,
        total_borrow_value_usd: v.borrow_value_usd,
        health_factor: v.health_factor,
        last_action_timestamp: stamp,
        ..position
    }
}

pub open spec fn with_totals(asset: AssetInfo, deposits: int, borrows: int) -> AssetInfo {
    AssetInfo { total_deposits: deposits as u64, total_borrows: borrows as u64, ..asset }
}

/// Recomputes the USD values and the health factor of a position from its
/// balances and the current quotes.
pub fn revalue(collateral: u64, debt: u64, asset: &AssetInfo, quote: &PriceQuote) -> (r: Result<Valuation, ErrorCode>)
    ensures
        r == valuation_of(collateral, debt, *asset, *quote),
{
    let c = calculate_usd_value(collateral, quote.collateral_price, asset.decimals)?;
    let b = calculate_usd_value(debt, quote.borrow_price, asset.decimals)?;
    let hf = calculate_health_factor(c, b, asset.liquidation_threshold)?;
    Ok(Valuation { collateral_value_usd: c, borrow_value_usd: b, health_factor: hf })
}

pub open spec fn deposit_outcome(pool: LendingPool, asset: AssetInfo, position: UserPosition, user: Key, amount: u64, quote: PriceQuote, now: i64) -> Result<(AssetInfo, UserPosition), ErrorCode> {
    if amount == 0 {
        Err(ErrorCode::InvalidAmount)
    } else if pool.is_paused {
        Err(ErrorCode::NotAuthorized)
    } else if !asset.is_active || !asset.can_be_collateral {
        Err(ErrorCode::AssetNotSupported)
    } else if rate_limited(position.last_action_timestamp, now) {
        Err(ErrorCode::RateLimited)
    } else if position.collateral_balance + amount > u64::MAX || asset.total_deposits + amount
        > u64::MAX {
        Err(ErrorCode::MathOverflow)
    } else {
        let balance = (position.collateral_balance + amount) as u64;
        match valuation_of(balance, position.borrow_balance, asset, quote) {
            Err(e) => Err(e),
            Ok(v) => {
                let owned = if is_unset_key(position.user) {
                    UserPosition { user, ..position }
                } else {
                    position
                };
                Ok(
                    (
                        with_totals(asset, asset.total_deposits + amount, asset.total_borrows as int),
                        with_balances(owned, balance, position.borrow_balance, v, now),
                    ),
                )
            },
        }
    }
}

/// Deposits `amount` base units of `asset` as collateral of `user`. A
/// position that nobody owns yet becomes `user`'s.
pub fn deposit(pool: &LendingPool, asset: &mut AssetInfo, position: &mut UserPosition, user: Key, amount: u64, quote: &PriceQuote, now: i64) -> (r: Result<DepositEvent, ErrorCode>)
    ensures
        match deposit_outcome(*pool, *old(asset), *old(position), user, amount, *quote, now) {
            Ok((a, p)) => {
                &&& r == Ok::<DepositEvent, ErrorCode>(
                    (DepositEvent { user, mint: old(asset).mint, amount, chain_selector: 0 }),
                )
                &&& *final(asset) == a
                &&& *final(position) == p
            },
            Err(e) => {
                &&& r == Err::<DepositEvent, ErrorCode>(e)
                &&& *final(asset) == *old(asset)
                &&& *final(position) == *old(position)
            },
        },
{
    if amount == 0 {
        return Err(ErrorCode::InvalidAmount);
    }
    if pool.is_paused {
        return Err(ErrorCode::NotAuthorized);
    }
    if !asset.is_active || !asset.can_be_collateral {
        return Err(ErrorCode::AssetNotSupported);
    }
    check_rate_limit(position.last_action_timestamp, now)?;
    let balance = match position.collateral_balance.checked_add(amount) {
        None => return Err(ErrorCode::MathOverflow),
        Some(v) => v,
    };
    let deposits = match asset.total_deposits.checked_add(amount) {
        None => return Err(ErrorCode::MathOverflow),
        Some(v) => v,
    };
    let v = revalue(balance, position.borrow_balance, asset, quote)?;
    if key_is_unset(&position.user) {
        position.user = user;
    }
    position.collateral_balance = balance;
    position.total_collateral_value_usd = v.collateral_value_usd;
    position.total_borrow_value_usd = v.borrow_value_usd;
    position.health_factor = v.health_factor;
    position.last_action_timestamp = now;
    asset.total_deposits = deposits;
    Ok(DepositEvent { user, mint: asset.mint, amount, chain_selector: 0 })
}

pub open spec fn repay_outcome(pool: LendingPool, asset: AssetInfo, position: UserPosition, amount: u64, quote: PriceQuote, now: i64) -> Result<(AssetInfo, UserPosition), ErrorCode> {
    if amount == 0 {
        Err(ErrorCode::InvalidAmount)
    } else if pool.is_paused {
        Err(ErrorCode::NotAuthorized)
    } else if is_unset_key(position.user) {
        Err(ErrorCode::PositionNotFound)
    } else if position.borrow_balance < amount {
        Err(ErrorCode::InvalidAmount)
    } else if rate_limited(position.last_action_timestamp, now) {
        Err(ErrorCode::RateLimited)
    } else if asset.total_borrows < amount {
        Err(ErrorCode::MathOverflow)
    } else {
        let debt = (position.borrow_balance - amount) as u64;
        match valuation_of(position.collateral_balance, debt, asset, quote) {
            Err(e) => Err(e),
            Ok(v) => Ok(
                (
                    with_totals(asset, asset.total_deposits as int, asset.total_borrows - amount),
                    with_balances(position, position.collateral_balance, debt, v, now),
                ),
            ),
        }
    }
}

/// Repays `amount` base units of the position's debt.
pub fn repay(pool: &LendingPool, asset: &mut AssetInfo, position: &mut UserPosition, amount: u64, quote: &PriceQuote, now: i64) -> (r: Result<RepayEvent, ErrorCode>)
    ensures
        match repay_outcome(*pool, *old(asset), *old(position), amount, *quote, now) {
            Ok((a, p)) => {
                &&& r == Ok::<RepayEvent, ErrorCode>(
                    (RepayEvent { user: old(position).user, mint: old(asset).mint, amount }),
                )
                &&& *final(asset) == a
                &&& *final(position) == p
            },
            Err(e) => {
                &&& r == Err::<RepayEvent, ErrorCode>(e)
                &&& *final(asset) == *old(asset)
                &&& *final(position) == *old(position)
            },
        },
{
    if amount == 0 {
        return Err(ErrorCode::InvalidAmount);
    }
    if pool.is_paused {
        return Err(ErrorCode::NotAuthorized);
    }
    if key_is_unset(&position.user) {
        return Err(ErrorCode::PositionNotFound);
    }
    if position.borrow_balance < amount {
        return Err(ErrorCode::InvalidAmount);
    }
    check_rate_limit(position.last_action_timestamp, now)?;
    if asset.total_borrows < amount {
        return Err(ErrorCode::MathOverflow);
    }
    let debt = position.borrow_balance - amount;
    let v = revalue(position.collateral_balance, debt, asset, quote)?;
    position.borrow_balance = debt;
    position.total_collateral_value_usd = v.collateral_value_usd;
    position.total_borrow_value_usd = v.borrow_value_usd;
    position.health_factor = v.health_factor;
    position.last_action_timestamp = now;
    asset.total_borrows = asset.total_borrows - amount;
    Ok(RepayEvent { user: position.user, mint: asset.mint, amount })
}

pub open spec fn withdraw_outcome(pool: LendingPool, asset: AssetInfo, position: UserPosition, amount: u64, quote: PriceQuote, now: i64) -> Result<(AssetInfo, UserPosition), ErrorCode> {
    if amount == 0 {
        Err(ErrorCode::InvalidAmount)
    } else if pool.is_paused {
        Err(ErrorCode::NotAuthorized)
    } else if rate_limited(position.last_action_timestamp, now) {
        Err(ErrorCode::RateLimited)
    } else if position.collateral_balance < amount {
        Err(ErrorCode::InsufficientCollateral)
    } else if asset.total_deposits < amount {
        Err(ErrorCode::MathOverflow)
    } else {
        let balance = (position.collateral_balance - amount) as u64;
        match valuation_of(balance, position.borrow_balance, asset, quote) {
            Err(e) => Err(e),
            Ok(v) => if v.health_factor < MIN_HEALTH_FACTOR {
                Err(ErrorCode::HealthFactorTooLow)
            } else {
                Ok(
                    (
                        with_totals(asset, asset.total_deposits - amount, asset.total_borrows as int),
                        with_balances(position, balance, position.borrow_balance, v, now),
                    ),
                )
            },
        }
    }
}

/// Withdraws `amount` base units of collateral, provided the position stays
/// healthy afterwards.
pub fn withdraw(pool: &LendingPool, asset: &mut AssetInfo, position: &mut UserPosition, amount: u64, quote: &PriceQuote, now: i64) -> (r: Result<WithdrawEvent, ErrorCode>)
    ensures
        match withdraw_outcome(*pool, *old(asset), *old(position), amount, *quote, now) {
            Ok((a, p)) => {
                &&& r == Ok::<WithdrawEvent, ErrorCode>(
                    (WithdrawEvent { user: old(position).user, mint: old(asset).mint, amount }),
                )
                &&& *final(asset) == a
                &&& *final(position) == p
            },
            Err(e) => {
                &&& r == Err::<WithdrawEvent, ErrorCode>(e)
                &&& *final(asset) == *old(asset)
                &&& *final(position) == *old(position)
            },
        },
{
    if amount == 0 {
        return Err(ErrorCode::InvalidAmount);
    }
    if pool.is_paused {
        return Err(ErrorCode::NotAuthorized);
    }
    check_rate_limit(position.last_action_timestamp, now)?;
    if position.collateral_balance < amount {
        return Err(ErrorCode::InsufficientCollateral);
    }
    if asset.total_deposits < amount {
        return Err(ErrorCode::MathOverflow);
    }
    let balance = position.collateral_balance - amount;
    let v = revalue(balance, position.borrow_balance, asset, quote)?;
    if v.health_factor < MIN_HEALTH_FACTOR {
        return Err(ErrorCode::HealthFactorTooLow);
    }
    position.collateral_balance = balance;
    position.total_collateral_value_usd = v.collateral_value_usd;
    position.total_borrow_value_usd = v.borrow_value_usd;
    position.health_factor = v.health_factor;
    position.last_action_timestamp = now;
    asset.total_deposits = asset.total_deposits - amount;
    Ok(WithdrawEvent { user: position.user, mint: asset.mint, amount })
}

/// Collateral units seized for `debt_amount` at `quote`, with the protocol's
/// liquidation bonus.
pub open spec fn seized_for(debt_amount: u64, quote: PriceQuote) -> int {
    seize_value(debt_amount, quote.borrow_price, LIQUIDATION_BONUS) / (quote.collateral_price as int)
}

/// Liquidation of `debt_amount` of a position's debt. Eligibility is judged by
/// the health factor under the asset's own liquidation threshold, the same
/// one that every other operation records; the borrower's cooldown does not
/// apply.
pub open spec fn liquidation_outcome(asset: AssetInfo, position: UserPosition, debt_amount: u64, quote: PriceQuote) -> Result<(AssetInfo, UserPosition, u64), ErrorCode> {
    if debt_amount == 0 || position.borrow_balance < debt_amount {
        Err(ErrorCode::InvalidAmount)
    } else {
        match valuation_of(position.collateral_balance, position.borrow_balance, asset, quote) {
            Err(e) => Err(e),
            Ok(current) => if current.health_factor >= MIN_HEALTH_FACTOR {
                Err(ErrorCode::LiquidationNotAllowed)
            } else if !seize_defined(
                debt_amount,
                quote.borrow_price,
                quote.collateral_price,
                LIQUIDATION_BONUS,
            ) {
                Err(ErrorCode::InvalidAmount)
            } else if position.collateral_balance < seized_for(debt_amount, quote) {
                Err(ErrorCode::InsufficientCollateral)
            } else if asset.total_borrows < debt_amount || asset.total_deposits < seized_for(
                debt_amount,
                quote,
            ) {
                Err(ErrorCode::MathOverflow)
            } else {
                let seized = seized_for(debt_amount, quote) as u64;
                let collateral = (position.collateral_balance - seized) as u64;
                let debt = (position.borrow_balance - debt_amount) as u64;
                match valuation_of(collateral, debt, asset, quote) {
                    Err(e) => Err(e),
                    Ok(v) => Ok(
                        (
                            with_totals(
                                asset,
                                asset.total_deposits - seized,
                                asset.total_borrows - debt_amount,
                            ),
                            with_balances(
                                position,
                                collateral,
                                debt,
                                v,
                                position.last_action_timestamp,
                            ),
                            seized,
                        ),
                    ),
                }
            },
        }
    }
}

/// Updates the accounts for a liquidation and returns the collateral seized;
/// the token movements are the caller's.
pub fn apply_liquidation(asset: &mut AssetInfo, position: &mut UserPosition, debt_amount: u64, quote: &PriceQuote) -> (r: Result<u64, ErrorCode>)
    ensures
        match liquidation_outcome(*old(asset), *old(position), debt_amount, *quote) {
            Ok((a, p, seized)) => {
                &&& r == Ok::<u64, ErrorCode>(seized)
                &&& *final(asset) == a
                &&& *final(position) == p
            },
            Err(e) => {
                &&& r == Err::<u64, ErrorCode>(e)
                &&& *final(asset) == *old(asset)
                &&& *final(position) == *old(position)
            },
        },
{
    if debt_amount == 0 || position.borrow_balance < debt_amount {
        return Err(ErrorCode::InvalidAmount);
    }
    let current = revalue(position.collateral_balance, position.borrow_balance, asset, quote)?;
    if current.health_factor >= MIN_HEALTH_FACTOR {
        return Err(ErrorCode::LiquidationNotAllowed);
    }
    let seized = calculate_liquidation_amount(
        debt_amount,
        quote.borrow_price,
        quote.collateral_price,
        LIQUIDATION_BONUS,
    )?;
    if position.collateral_balance < seized {
        return Err(ErrorCode::InsufficientCollateral);
    }
    if asset.total_borrows < debt_amount || asset.total_deposits < seized {
        return Err(ErrorCode::MathOverflow);
    }
    let collateral = position.collateral_balance - seized;
    let debt = position.borrow_balance - debt_amount;
    let v = revalue(collateral, debt, asset, quote)?;
    position.collateral_balance = collateral;
    position.borrow_balance = debt;
    position.total_collateral_value_usd = v.collateral_value_usd;
    position.total_borrow_value_usd = v.borrow_value_usd;
    position.health_factor = v.health_factor;
    asset.total_deposits = asset.total_deposits - seized;
    asset.total_borrows = asset.total_borrows - debt_amount;
    Ok(seized)
}

/// Liquidates `debt_amount` of `borrower`'s debt on behalf of `liquidator`.
pub fn liquidate(asset: &mut AssetInfo, position: &mut UserPosition, liquidator: Key, borrower: Key, debt_amount: u64, quote: &PriceQuote) -> (r: Result<LiquidationEvent, ErrorCode>)
    ensures
        match liquidation_outcome(*old(asset), *old(position), debt_amount, *quote) {
            Ok((a, p, seized)) => {
                &&& r == Ok::<LiquidationEvent, ErrorCode>(
                    (LiquidationEvent {
                        liquidator,
                        borrower,
                        debt_amount,
                        collateral_seized: seized,
                        health_factor: p.health_factor,
                    }),
                )
                &&& *final(asset) == a
                &&& *final(position) == p
            },
            Err(e) => {
                &&& r == Err::<LiquidationEvent, ErrorCode>(e)
                &&& *final(asset) == *old(asset)
                &&& *final(position) == *old(position)
            },
        },
{
    let seized = apply_liquidation(asset, position, debt_amount, quote)?;
    Ok(
        LiquidationEvent {
            liquidator,
            borrower,
            debt_amount,
            collateral_seized: seized,
            health_factor: position.health_factor,
        },
    )
}

/// The chains a new pool exchanges messages with.
pub open spec fn initial_chains() -> Seq<u32> {
    seq![40161u32, 40231u32, 40245u32]
}

impl LendingPool {
    /// A pool that is not paused, has no assets, and talks to the initial
    /// chains.
    pub fn initialize(admin: Key, layerzero_endpoint: Key, delegate: Key, oapp_store: Key, bump: u8) -> (r: LendingPool)
        ensures
            r.wf(),
            r.admin == admin,
            r.layerzero_endpoint == layerzero_endpoint,
            r.delegate == delegate,
            r.oapp_store == oapp_store,
            !r.is_paused,
            r.total_assets == 0,
            r.supported_chains@ == initial_chains(),
            r.message_nonce == 0,
            r.processed_messages@.len() == 0,
            r.registered_assets@.len() == 0,
            r.bump == bump,
    {
        let supported_chains: Vec<u32> = vec![40161u32, 40231u32, 40245u32];
        assert(supported_chains@ =~= initial_chains());
        LendingPool {
            admin,
            layerzero_endpoint,
            delegate,
            oapp_store,
            is_paused: false,
            total_assets: 0,
            supported_chains,
            message_nonce: 0,
            processed_messages: Vec::new(),
            registered_assets: Vec::new(),
            bump,
        }
    }

    /// Whether the pool exchanges messages with `chain`.
    pub fn is_supported(&self, chain: u32) -> (r: bool)
        ensures
            r == self.supports(chain),
    {
        let mut i: usize = 0;
        while i < self.supported_chains.len()
            invariant
                i <= self.supported_chains@.len(),
                forall|j: int| 0 <= j < i ==> self.supported_chains@[j] != chain,
            decreases self.supported_chains@.len() - i,
        {
            if self.supported_chains[i] == chain {
                return true;
            }
            i = i + 1;
        }
        false
    }

    /// Whether an asset with `mint` has been registered.
    pub fn is_registered(&self, mint: &Key) -> (r: bool)
        ensures
            r == self.has_asset(mint@),
    {
        let mut i: usize = 0;
        while i < self.registered_assets.len()
            invariant
                i <= self.registered_assets@.len(),
                forall|j: int| 0 <= j < i ==> #[trigger] self.registered_assets@[j]@ != mint@,
            decreases self.registered_assets@.len() - i,
        {
            if keys_equal(&self.registered_assets[i], mint) {
                assert(self.registered_assets@[i as int]@ == mint@);
                return true;
            }
            i = i + 1;
        }
        false
    }

    /// Adds `chain` to the allow-list; the administrator alone may.
    pub fn add_supported_chain(&mut self, caller: Key, chain: u32) -> (r: Result<(), ErrorCode>)
        requires
            old(self).wf(),
        ensures
            final(self).wf(),
            caller@ != old(self).admin@ ==> r == Err::<(), ErrorCode>(ErrorCode::NotAuthorized),
            caller@ == old(self).admin@ && !old(self).supports(chain)
                && old(self).supported_chains@.len() >= MAX_SUPPORTED_CHAINS ==> r == Err::<
                (),
                ErrorCode,
            >(ErrorCode::ChainLimitReached),
            r is Ok <==> caller@ == old(self).admin@ && (old(self).supports(chain)
                || old(self).supported_chains@.len() < MAX_SUPPORTED_CHAINS),
            r is Err ==> *final(self) == *old(self),
            r is Ok ==> final(self).supports(chain),
            r is Ok ==> forall|c: u32|
                c != chain ==> (final(self).supports(c) == old(self).supports(c)),
            r is Ok ==> (LendingPool { supported_chains: old(self).supported_chains, ..*final(self) })
                == *old(self),
    {
        if !keys_equal(&caller, &self.admin) {
            return Err(ErrorCode::NotAuthorized);
        }
        if self.is_supported(chain) {
            return Ok(());
        }
        if self.supported_chains.len() >= MAX_SUPPORTED_CHAINS {
            return Err(ErrorCode::ChainLimitReached);
        }
        let ghost before = self.supported_chains@;
        self.supported_chains.push(chain);
        proof {
            let after = self.supported_chains@;
            assert(after[before.len() as int] == chain);
            assert forall|c: u32| c != chain implies (after.contains(c) == before.contains(c)) by {
                if before.contains(c) {
                    let k = choose|k: int| 0 <= k < before.len() && before[k] == c;
                    assert(after[k] == c);
                }
                if after.contains(c) {
                    let k = choose|k: int| 0 <= k < after.len() && after[k] == c;
                    assert(k < before.len());
                    assert(before[k] == c);
                }
            }
        }
        Ok(())
    }

    /// Removes `chain` from the allow-list; the administrator alone may.
    pub fn remove_supported_chain(&mut self, caller: Key, chain: u32) -> (r: Result<(), ErrorCode>)
        requires
            old(self).wf(),
        ensures
            final(self).wf(),
            r is Err <==> caller@ != old(self).admin@,
            r is Err ==> r->Err_0 == ErrorCode::NotAuthorized && *final(self) == *old(self),
            r is Ok ==> !final(self).supports(chain),
            r is Ok ==> forall|c: u32|
                c != chain ==> (final(self).supports(c) == old(self).supports(c)),
            r is Ok ==> (LendingPool { supported_chains: old(self).supported_chains, ..*final(self) })
                == *old(self),
    {
        if !keys_equal(&caller, &self.admin) {
            return Err(ErrorCode::NotAuthorized);
        }
        let mut kept: Vec<u32> = Vec::new();
        let mut i: usize = 0;
        while i < self.supported_chains.len()
            invariant
                i <= self.supported_chains@.len(),
                no_duplicates(self.supported_chains@),
                kept@.len() <= i,
                no_duplicates(kept@),
                !kept@.contains(chain),
                forall|c: u32|
                    c != chain ==> (kept@.contains(c) <==> self.supported_chains@.subrange(
                        0,
                        i as int,
                    ).contains(c)),
            decreases self.supported_chains@.len() - i,
        {
            let c = self.supported_chains[i];
            let ghost prev = self.supported_chains@.subrange(0, i as int);
            let ghost before = kept@;
            if c != chain {
                assert(!before.contains(c)) by {
                    if before.contains(c) {
                        let k = choose|k: int| 0 <= k < prev.len() && prev[k] == c;
                        assert(self.supported_chains@[k] == c);
                    }
                }
                kept.push(c);
            }
            proof {
                let next = self.supported_chains@.subrange(0, i + 1);
                assert(next =~= prev.push(c));
                assert forall|x: u32| x != chain implies (kept@.contains(x) <==> next.contains(x)) by {
                    if kept@.contains(x) {
                        let k = choose|k: int| 0 <= k < kept@.len() && kept@[k] == x;
                        if k < before.len() {
                            assert(before[k] == x);
                            assert(before.contains(x));
                            let j = choose|j: int| 0 <= j < prev.len() && prev[j] == x;
                            assert(next[j] == x);
                        } else {
                            assert(next[i as int] == x);
                        }
                    }
                    if next.contains(x) {
                        let j = choose|j: int| 0 <= j < next.len() && next[j] == x;
                        if j < i {
                            assert(prev[j] == x);
                            assert(prev.contains(x));
                            assert(before.contains(x));
                            let k = choose|k: int| 0 <= k < before.len() && before[k] == x;
                            assert(kept@[k] == x);
                        } else {
                            assert(kept@[kept@.len() - 1] == x);
                        }
                    }
                }
                assert(!kept@.contains(chain)) by {
                    if kept@.contains(chain) {
                        let k = choose|k: int| 0 <= k < kept@.len() && kept@[k] == chain;
                        if k < before.len() {
                            assert(before[k] == chain);
                        }
                    }
                }
            }
            i = i + 1;
        }
        assert(self.supported_chains@.subrange(0, self.supported_chains@.len() as int)
            =~= self.supported_chains@);
        self.supported_chains = kept;
        Ok(())
    }

    /// Stops every operation that honours the pause flag.
    pub fn pause(&mut self, caller: Key) -> (r: Result<ProtocolPausedEvent, ErrorCode>)
        ensures
            r is Ok <==> caller@ == old(self).admin@ && !old(self).is_paused,
            r is Ok ==> *final(self) == (LendingPool { is_paused: true, ..*old(self) })
                && r->Ok_0 == (ProtocolPausedEvent { admin: caller }),
            r is Err ==> r->Err_0 == ErrorCode::NotAuthorized && *final(self) == *old(self),
    {
        if !keys_equal(&caller, &self.admin) || self.is_paused {
            return Err(ErrorCode::NotAuthorized);
        }
        self.is_paused = true;
        Ok(ProtocolPausedEvent { admin: caller })
    }

    /// Lifts a pause.
    pub fn unpause(&mut self, caller: Key) -> (r: Result<ProtocolUnpausedEvent, ErrorCode>)
        ensures
            r is Ok <==> caller@ == old(self).admin@ && old(self).is_paused,
            r is Ok ==> *final(self) == (LendingPool { is_paused: false, ..*old(self) })
                && r->Ok_0 == (ProtocolUnpausedEvent { admin: caller }),
            r is Err ==> r->Err_0 == ErrorCode::NotAuthorized && *final(self) == *old(self),
    {
        if !keys_equal(&caller, &self.admin) || !self.is_paused {
            return Err(ErrorCode::NotAuthorized);
        }
        self.is_paused = false;
        Ok(ProtocolUnpausedEvent { admin: caller })
    }
}

/// Whether an administrator's asset configuration is acceptable.
pub open spec fn config_acceptable(config: AssetConfig, decimals: u8) -> bool {
    &&& config.is_valid()
    &&& config.ltv <= MAX_LTV
    &&& decimals <= VALUE_DECIMALS
}

/// Registers `mint` with `config`. Fails with `NotAuthorized` for anyone but
/// the administrator or while paused, with `InvalidAmount` unless
/// `0 < ltv <= MAX_LTV`, `ltv <= liquidation_threshold <= PRECISION` and the
/// token has at most 18 decimals, and with `AssetAlreadyRegistered` for a
/// mint registered before.
pub fn add_supported_asset(pool: &mut LendingPool, caller: Key, mint: Key, decimals: u8, config: AssetConfig, bump: u8) -> (r: Result<(AssetInfo, AssetAddedEvent), ErrorCode>)
    ensures
        r is Ok <==> caller@ == old(pool).admin@ && !old(pool).is_paused && config_acceptable(
            config,
            decimals,
        ) && !old(pool).has_asset(mint@) && old(pool).total_assets < u64::MAX,
        r is Err ==> *final(pool) == *old(pool),
        caller@ != old(pool).admin@ || old(pool).is_paused ==> r == Err::<
            (AssetInfo, AssetAddedEvent),
            ErrorCode,
        >(ErrorCode::NotAuthorized),
        caller@ == old(pool).admin@ && !old(pool).is_paused && !config_acceptable(config, decimals)
            ==> r == Err::<(AssetInfo, AssetAddedEvent), ErrorCode>(ErrorCode::InvalidAmount),
        caller@ == old(pool).admin@ && !old(pool).is_paused && config_acceptable(config, decimals)
            && old(pool).has_asset(mint@) ==> r == Err::<(AssetInfo, AssetAddedEvent), ErrorCode>(
            ErrorCode::AssetAlreadyRegistered,
        ),
        r is Ok ==> {
            let (info, event) = r->Ok_0;
            &&& final(pool).total_assets == old(pool).total_assets + 1
            &&& final(pool).registered_assets@ == old(pool).registered_assets@.push(mint)
            &&& (LendingPool {
                total_assets: old(pool).total_assets,
                registered_assets: old(pool).registered_assets,
                ..*final(pool)
            }) == *old(pool)
            &&& info == (AssetInfo {
                mint,
                price_feed: config.price_feed,
                ltv: config.ltv,
                liquidation_threshold: config.liquidation_threshold,
                is_active: true,
                can_be_collateral: config.can_be_collateral,
                can_be_borrowed: config.can_be_borrowed,
                total_deposits: 0,
                total_borrows: 0,
                decimals,
                bump,
            })
            &&& event == (AssetAddedEvent {
                mint,
                ltv: config.ltv,
                liquidation_threshold: config.liquidation_threshold,
            })
        },
{
    if !keys_equal(&caller, &pool.admin) || pool.is_paused {
        return Err(ErrorCode::NotAuthorized);
    }
    if config.ltv == 0 || config.ltv > MAX_LTV || config.ltv > config.liquidation_threshold
        || config.liquidation_threshold as u128 > PRECISION || decimals > VALUE_DECIMALS {
        return Err(ErrorCode::InvalidAmount);
    }
    if pool.is_registered(&mint) {
        return Err(ErrorCode::AssetAlreadyRegistered);
    }
    if pool.total_assets == u64::MAX {
        return Err(ErrorCode::MathOverflow);
    }
    pool.total_assets = pool.total_assets + 1;
    pool.registered_assets.push(mint);
    let info = AssetInfo {
        mint,
        price_feed: config.price_feed,
        ltv: config.ltv,
        liquidation_threshold: config.liquidation_threshold,
        is_active: true,
        can_be_collateral: config.can_be_collateral,
        can_be_borrowed: config.can_be_borrowed,
        total_deposits: 0,
        total_borrows: 0,
        decimals,
        bump,
    };
    let event = AssetAddedEvent {
        mint,
        ltv: config.ltv,
        liquidation_threshold: config.liquidation_threshold,
    };
    Ok((info, event))
}

impl OAppStore {
    /// The messaging store, not yet tied to a lending pool.
    pub fn init_oapp_store(params: InitStoreParams, bump: u8) -> (r: OAppStore)
        ensures
            r.admin == params.admin,
            r.endpoint_program == params.endpoint,
            r.bump == bump,
            is_unset_key(r.lending_pool),
    {
        OAppStore {
            admin: params.admin,
            endpoint_program: params.endpoint,
            bump,
            lending_pool: unset_key(),
        }
    }
}

} // verus!
