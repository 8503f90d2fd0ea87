//! The cross-chain protocol: borrowing with settlement on another chain,
//! outbound sends with fee checks and nonce allocation, and inbound delivery
//! with peer validation, replay protection and dispatch to the ledger.
use vstd::prelude::*;

use crate::error::ErrorCode;
use crate::ledger::{
    apply_liquidation, liquidation_outcome, revalue, valuation_of, with_balances, with_totals,
};
use crate::risk::{check_rate_limit, max_borrow, rate_limited, MIN_HEALTH_FACTOR, PRECISION};
use crate::state::{
    is_unset_key, key_is_unset, keys_equal, AssetInfo, BorrowEvent, ClearParams,
    CrossChainMessageReceivedEvent, InboundKey, Key, LendingPool, LzReceiveParams,
    MessageFeeResult, PeerConfig, PriceQuote, SendParams, SendResult, UserPosition,
};
use crate::wire::{
    decode_message, encode_message, le_bytes, message_bytes, push_bytes, push_le, read_key, twos,
    CrossChainMessage, MessageAction,
};

verus! {

/// Chain id that outbound messages name as their source.
pub const LOCAL_CHAIN_ID: u32 = 40168;

/// Endpoint id of this chain on the messaging network.
pub const ENDPOINT_ID: u32 = 30168;

/// Fee of every outbound message, whatever its size.
pub const BASE_MESSAGE_FEE: u64 = 1_000_000;

/// Fee of each byte of an outbound message.
pub const FEE_PER_BYTE: u64 = 100;

/// Native fee of a message of `len` bytes.
pub open spec fn message_fee(len: nat) -> int {
    BASE_MESSAGE_FEE + FEE_PER_BYTE * len
}

/// The first check that refuses a borrow before the position is valued, if
/// any.
pub open spec fn borrow_gate(pool: LendingPool, asset: AssetInfo, position: UserPosition, amount: u64, dest_chain: u32, now: i64) -> Option<ErrorCode> {
    if amount == 0 {
        Some(ErrorCode::InvalidAmount)
    } else if pool.is_paused {
        Some(ErrorCode::NotAuthorized)
    } else if !asset.is_active || !asset.can_be_borrowed {
        Some(ErrorCode::AssetNotSupported)
    } else if !pool.supports(dest_chain) {
        Some(ErrorCode::ChainNotSupported)
    } else if rate_limited(position.last_action_timestamp, now) {
        Some(ErrorCode::RateLimited)
    } else if is_unset_key(position.user) {
        Some(ErrorCode::PositionNotFound)
    } else if position.borrow_balance + amount > u64::MAX || asset.total_borrows + amount
        > u64::MAX || pool.message_nonce == u64::MAX {
        Some(ErrorCode::MathOverflow)
    } else {
        None
    }
}

/// What a borrow that is settled on `dest_chain` does to the asset and the
/// position. The loan-to-value ceiling and the health factor are judged on
/// the position after the borrow, valued at `quote`.
pub open spec fn borrow_outcome(pool: LendingPool, asset: AssetInfo, position: UserPosition, amount: u64, dest_chain: u32, quote: PriceQuote, now: i64) -> Result<(AssetInfo, UserPosition), ErrorCode> {
    match borrow_gate(pool, asset, position, amount, dest_chain, now) {
        Some(e) => Err(e),
        None => {
            let debt = (position.borrow_balance + amount) as u64;
            match valuation_of(position.collateral_balance, debt, asset, quote) {
                Err(e) => Err(e),
                Ok(v) => {
                    let ceiling = v.collateral_value_usd * asset.ltv / (PRECISION as int);
                    if ceiling > u128::MAX {
                        Err(ErrorCode::MathOverflow)
                    } else if v.borrow_value_usd > ceiling {
                        Err(ErrorCode::InsufficientCollateral)
                    } else if v.health_factor < MIN_HEALTH_FACTOR {
                        Err(ErrorCode::HealthFactorTooLow)
                    } else {
                        Ok(
                            (
                                with_totals(
                                    asset,
                                    asset.total_deposits as int,
                                    asset.total_borrows + amount,
                                ),
                                with_balances(position, position.collateral_balance, debt, v, now),
                            ),
                        )
                    }
                },
            }
        },
    }
}

/// The message that announces a borrow to the destination chain.
pub open spec fn borrow_message(pool: LendingPool, asset: AssetInfo, position: UserPosition, amount: u64, dest_chain: u32, receiver: Key, now: i64) -> CrossChainMessage {
    CrossChainMessage {
        action: MessageAction::Borrow,
        user: position.user,
        amount,
        asset: asset.mint,
        timestamp: now,
        source_chain: LOCAL_CHAIN_ID,
        dest_chain,
        receiver,
        nonce: pool.message_nonce,
    }
}

/// What a successful cross-chain borrow hands to the messaging transport.
#[derive(Clone, Debug)]
pub struct BorrowReceipt {
    pub event: BorrowEvent,
    pub message: CrossChainMessage,
    pub payload: Vec<u8>,
}

/// Borrows `amount` of `asset` against the position's collateral, to be paid
/// out to `receiver` on `dest_chain_id`. On success the pool's nonce moves on
/// by one and the encoded message is returned for delivery.
pub fn borrow_cross_chain(pool: &mut LendingPool, asset: &mut AssetInfo, position: &mut UserPosition, amount: u64, dest_chain_id: u32, receiver: Key, quote: &PriceQuote, now: i64) -> (r: Result<BorrowReceipt, ErrorCode>)
    ensures
        match borrow_outcome(*old(pool), *old(asset), *old(position), amount, dest_chain_id, *quote, now) {
            Ok((a, p)) => {
                &&& r is Ok
                &&& *final(asset) == a
                &&& *final(position) == p
                &&& *final(pool) == (LendingPool {
                    message_nonce: (old(pool).message_nonce + 1) as u64,
                    ..*old(pool)
                })
                &&& r->Ok_0.message == borrow_message(
                    *old(pool),
                    *old(asset),
                    *old(position),
                    amount,
                    dest_chain_id,
                    receiver,
                    now,
                )
                &&& r->Ok_0.payload@ == message_bytes(r->Ok_0.message)
                &&& r->Ok_0.event == (BorrowEvent {
                    user: old(position).user,
                    mint: old(asset).mint,
                    amount,
                    dest_chain: dest_chain_id as u64,
                    health_factor: p.health_factor,
                })
            },
            Err(e) => {
                &&& r is Err
                &&& r->Err_0 == e
                &&& *final(pool) == *old(pool)
                &&& *final(asset) == *old(asset)
                &&& *final(position) == *old(position)
            },
        },
{
    if amount == 0 {
        return Err(ErrorCode::InvalidAmount);
    }
    if pool.is_paused {
        return Err(ErrorCode::NotAuthorized);
    }
    if !asset.is_active || !asset.can_be_borrowed {
        return Err(ErrorCode::AssetNotSupported);
    }
    if !pool.is_supported(dest_chain_id) {
        return Err(ErrorCode::ChainNotSupported);
    }
    check_rate_limit(position.last_action_timestamp, now)?;
    if key_is_unset(&position.user) {
        return Err(ErrorCode::PositionNotFound);
    }
    let debt = match position.borrow_balance.checked_add(amount) {
        None => return Err(ErrorCode::MathOverflow),
        Some(v) => v,
    };
    let borrows = match asset.total_borrows.checked_add(amount) {
        None => return Err(ErrorCode::MathOverflow),
        Some(v) => v,
    };
    if pool.message_nonce == u64::MAX {
        return Err(ErrorCode::MathOverflow);
    }
    let v = revalue(position.collateral_balance, debt, asset, quote)?;
    let ceiling = max_borrow(v.collateral_value_usd, asset.ltv)?;
    if v.borrow_value_usd > ceiling {
        return Err(ErrorCode::InsufficientCollateral);
    }
    if v.health_factor < MIN_HEALTH_FACTOR {
        return Err(ErrorCode::HealthFactorTooLow);
    }
    let message = CrossChainMessage {
        action: MessageAction::Borrow,
        user: position.user,
        amount,
        asset: asset.mint,
        timestamp: now,
        source_chain: LOCAL_CHAIN_ID,
        dest_chain: dest_chain_id,
        receiver,
        nonce: pool.message_nonce,
    };
    let payload = encode_message(&message);
    position.borrow_balance = debt;
    position.total_collateral_value_usd = v.collateral_value_usd;
    position.total_borrow_value_usd = v.borrow_value_usd;
    position.health_factor = v.health_factor;
    position.last_action_timestamp = now;
    asset.total_borrows = borrows;
    pool.message_nonce = pool.message_nonce + 1;
    let event = BorrowEvent {
        user: position.user,
        mint: asset.mint,
        amount,
        dest_chain: dest_chain_id as u64,
        health_factor: v.health_factor,
    };
    Ok(BorrowReceipt { event, message, payload })
}

/// Fee the endpoint asks for the message of `params`: a base fee and a fee
/// per byte; nothing is charged in the network's own token.
pub fn calculate_message_fee(params: &SendParams) -> (r: Result<MessageFeeResult, ErrorCode>)
    ensures
        r is Ok <==> message_fee(params.message@.len()) <= u64::MAX,
        r is Ok ==> r->Ok_0.native_fee == message_fee(params.message@.len())
            && r->Ok_0.lz_token_fee == 0,
        r is Err ==> r->Err_0 == ErrorCode::MathOverflow,
{
    let len = params.message.len();
    if len as u128 > ((u64::MAX - BASE_MESSAGE_FEE) / FEE_PER_BYTE) as u128 {
        return Err(ErrorCode::MathOverflow);
    }
    let size_fee = (len as u64) * FEE_PER_BYTE;
    Ok(MessageFeeResult { native_fee: BASE_MESSAGE_FEE + size_fee, lz_token_fee: 0 })
}

/// The nonce allocated to an outbound message and the fee it was charged.
#[derive(Clone, Copy, Debug)]
pub struct SendTicket {
    pub nonce: u64,
    pub fee: MessageFeeResult,
}

/// Admits an outbound message: its destination must be supported and the
/// offered native fee must cover the required one. On success the message
/// takes the pool's nonce, which moves on by one.
pub fn send(pool: &mut LendingPool, params: &SendParams) -> (r: Result<SendTicket, ErrorCode>)
    ensures
        !old(pool).supports(params.dst_eid) ==> r == Err::<SendTicket, ErrorCode>(
            ErrorCode::ChainNotSupported,
        ),
        old(pool).supports(params.dst_eid) && message_fee(params.message@.len()) > u64::MAX ==> r
            == Err::<SendTicket, ErrorCode>(ErrorCode::MathOverflow),
        old(pool).supports(params.dst_eid) && message_fee(params.message@.len()) <= u64::MAX
            && params.native_fee < message_fee(params.message@.len()) ==> r == Err::<
            SendTicket,
            ErrorCode,
        >(ErrorCode::InsufficientFee),
        old(pool).supports(params.dst_eid) && params.native_fee >= message_fee(
            params.message@.len(),
        ) && old(pool).message_nonce == u64::MAX ==> r == Err::<SendTicket, ErrorCode>(
            ErrorCode::MathOverflow,
        ),
        r is Ok <==> old(pool).supports(params.dst_eid) && params.native_fee >= message_fee(
            params.message@.len(),
        ) && old(pool).message_nonce < u64::MAX,
        r is Ok ==> {
            &&& r->Ok_0.nonce == old(pool).message_nonce
            &&& r->Ok_0.fee.native_fee == message_fee(params.message@.len())
            &&& r->Ok_0.fee.lz_token_fee == 0
            &&& *final(pool) == (LendingPool {
                message_nonce: (old(pool).message_nonce + 1) as u64,
                ..*old(pool)
            })
        },
        r is Err ==> *final(pool) == *old(pool),
{
    if !pool.is_supported(params.dst_eid) {
        return Err(ErrorCode::ChainNotSupported);
    }
    let fee = calculate_message_fee(params)?;
    if params.native_fee < fee.native_fee {
        return Err(ErrorCode::InsufficientFee);
    }
    if pool.message_nonce == u64::MAX {
        return Err(ErrorCode::MathOverflow);
    }
    let nonce = pool.message_nonce;
    pool.message_nonce = nonce + 1;
    Ok(SendTicket { nonce, fee })
}

/// Delivery id made up when the endpoint assigns none: the nonce and the
/// timestamp, little-endian, followed by zeros.
pub open spec fn fallback_guid(nonce: u64, timestamp: i64) -> Seq<u8> {
    le_bytes(nonce as nat, 8) + le_bytes(twos(timestamp), 8) + Seq::new(16, |i: int| 0u8)
}

/// The delivery id of a sent message: the endpoint's, or one made from the
/// nonce and the time when it gave none.
pub fn delivery_guid(result: &SendResult, nonce: u64, timestamp: i64) -> (r: Key)
    ensures
        result.guid is Some ==> r == result.guid->0,
        result.guid is None ==> r@ == fallback_guid(nonce, timestamp),
{
    match result.guid {
        Some(g) => g,
        None => {
            let mut bytes: Vec<u8> = Vec::new();
            push_le(&mut bytes, nonce, 8);
            let stamp: u64 = if timestamp >= 0 {
                timestamp as u64
            } else {
                u64::MAX - ((-(timestamp + 1)) as u64)
            };
            push_le(&mut bytes, stamp, 8);
            let mut i: usize = 0;
            let ghost prefix = bytes@;
            while i < 16
                invariant
                    i <= 16,
                    bytes@ == prefix + Seq::new(i as nat, |j: int| 0u8),
                decreases 16 - i,
            {
                bytes.push(0u8);
                assert(bytes@ =~= prefix + Seq::new((i + 1) as nat, |j: int| 0u8));
                i = i + 1;
            }
            proof {
                crate::wire::lemma_le_bytes_len(nonce as nat, 8);
                crate::wire::lemma_le_bytes_len(twos(timestamp), 8);
            }
            let g = read_key(&bytes, 0);
            assert(bytes@.subrange(0, 32) =~= bytes@);
            g
        },
    }
}

/// Repayment of `amount` of a position's debt, made on another chain.
pub open spec fn settlement_outcome(asset: AssetInfo, position: UserPosition, amount: u64, quote: PriceQuote) -> Result<(AssetInfo, UserPosition), ErrorCode> {
    if amount == 0 || position.borrow_balance < amount {
        Err(ErrorCode::InvalidAmount)
    } else if asset.total_borrows < amount {
        Err(ErrorCode::MathOverflow)
    } else {
        let debt = (position.borrow_balance - amount) as u64;
        match valuation_of(position.collateral_balance, debt, asset, quote) {
            Err(e) => Err(e),
            Ok(v) => Ok(
                (
                    with_totals(asset, asset.total_deposits as int, asset.total_borrows - amount),
                    with_balances(
                        position,
                        position.collateral_balance,
                        debt,
                        v,
                        position.last_action_timestamp,
                    ),
                ),
            ),
        }
    }
}

/// The message that `payload` encodes, if it encodes one.
pub open spec fn parsed(payload: Seq<u8>) -> Option<CrossChainMessage> {
    if exists|m: CrossChainMessage| message_bytes(m) == payload {
        Some(choose|m: CrossChainMessage| message_bytes(m) == payload)
    } else {
        None
    }
}

/// What an inbound delivery of `payload` from `sender` on `src_eid`, with
/// the transport's `nonce`, does to the asset and the position it names,
/// with the collateral it seizes. The position's own cooldown does not apply.
pub open spec fn receive_outcome(pool: LendingPool, peer: PeerConfig, src_eid: u32, sender: Key, nonce: u64, payload: Seq<u8>, asset: AssetInfo, position: UserPosition, quote: PriceQuote) -> Result<(AssetInfo, UserPosition, CrossChainMessage, u64), ErrorCode> {
    if !pool.supports(src_eid) {
        Err(ErrorCode::ChainNotSupported)
    } else if peer.eid != src_eid || peer.peer_address@ != sender@ {
        Err(ErrorCode::CrossChainFailed)
    } else if pool.has_processed(src_eid, sender@, nonce) {
        Err(ErrorCode::CrossChainFailed)
    } else {
        match parsed(payload) {
            None => Err(ErrorCode::CrossChainFailed),
            Some(m) => if m.user@ != position.user@ || m.asset@ != asset.mint@ {
                Err(ErrorCode::CrossChainFailed)
            } else {
                match m.action {
                    MessageAction::Repay => match settlement_outcome(asset, position, m.amount, quote) {
                        Err(e) => Err(e),
                        Ok((a, p)) => Ok((a, p, m, 0u64)),
                    },
                    MessageAction::Liquidate => match liquidation_outcome(asset, position, m.amount, quote) {
                        Err(e) => Err(e),
                        Ok((a, p, seized)) => Ok((a, p, m, seized)),
                    },
                    MessageAction::Borrow => Err(ErrorCode::CrossChainFailed),
                }
            },
        }
    }
}

/// Applies a repayment made on another chain.
pub fn process_cross_chain_repay(asset: &mut AssetInfo, position: &mut UserPosition, message: &CrossChainMessage, quote: &PriceQuote) -> (r: Result<(), ErrorCode>)
    ensures
        match settlement_outcome(*old(asset), *old(position), message.amount, *quote) {
            Ok((a, p)) => r is Ok && *final(asset) == a && *final(position) == p,
            Err(e) => r == Err::<(), ErrorCode>(e) && *final(asset) == *old(asset) && *final(position) == *old(position),
        },
{
    let amount = message.amount;
    if amount == 0 || position.borrow_balance < amount {
        return Err(ErrorCode::InvalidAmount);
    }
    if asset.total_borrows < amount {
        return Err(ErrorCode::MathOverflow);
    }
    let debt = position.borrow_balance - amount;
    let v = revalue(position.collateral_balance, debt, asset, quote)?;
    position.borrow_balance = debt;
    position.total_collateral_value_usd = v.collateral_value_usd;
    position.total_borrow_value_usd = v.borrow_value_usd;
    position.health_factor = v.health_factor;
    asset.total_borrows = asset.total_borrows - amount;
    Ok(())
}

/// Applies a liquidation ordered from another chain, with the message's
/// amount as the debt repaid; returns the collateral seized.
pub fn process_cross_chain_liquidation(asset: &mut AssetInfo, position: &mut UserPosition, message: &CrossChainMessage, quote: &PriceQuote) -> (r: Result<u64, ErrorCode>)
    ensures
        match liquidation_outcome(*old(asset), *old(position), message.amount, *quote) {
            Ok((a, p, seized)) => r == Ok::<u64, ErrorCode>(seized) && *final(asset) == a
                && *final(position) == p,
            Err(e) => r == Err::<u64, ErrorCode>(e) && *final(asset) == *old(asset) && *final(position) == *old(position),
        },
{
    apply_liquidation(asset, position, message.amount, quote)
}

/// Whether the pool has applied the delivery `(src_eid, sender, nonce)`.
pub fn already_processed(pool: &LendingPool, src_eid: u32, sender: &Key, nonce: u64) -> (r: bool)
    ensures
        r == pool.has_processed(src_eid, sender@, nonce),
{
    let mut i: usize = 0;
    while i < pool.processed_messages.len()
        invariant
            i <= pool.processed_messages@.len(),
            forall|j: int|
                0 <= j < i ==> #[trigger] pool.processed_messages@[j]@ != (src_eid, sender@, nonce),
        decreases pool.processed_messages@.len() - i,
    {
        let k = &pool.processed_messages[i];
        if k.src_eid == src_eid && k.nonce == nonce && keys_equal(&k.sender, sender) {
            assert(pool.processed_messages@[i as int]@ == (src_eid, sender@, nonce));
            return true;
        }
        i = i + 1;
    }
    false
}

/// What an applied delivery reports: the message, the collateral it seized,
/// the record to emit, and what to tell the endpoint.
#[derive(Clone, Debug)]
pub struct ReceiveReceipt {
    pub message: CrossChainMessage,
    pub collateral_seized: u64,
    pub event: CrossChainMessageReceivedEvent,
    pub clear: ClearParams,
}

/// Applies an inbound delivery. It must come from a supported chain and from
/// the peer registered for it, must not have been applied before, and must
/// encode a repayment or a liquidation of the given position. On success the
/// delivery is recorded, so that a repeated one is refused.
pub fn lz_receive(pool: &mut LendingPool, peer: &PeerConfig, params: &LzReceiveParams, asset: &mut AssetInfo, position: &mut UserPosition, quote: &PriceQuote) -> (r: Result<ReceiveReceipt, ErrorCode>)
    ensures
        match receive_outcome(
            *old(pool),
            *peer,
            params.src_eid,
            params.sender,
            params.nonce,
            params.message@,
            *old(asset),
            *old(position),
            *quote,
        ) {
            Ok((a, p, m, seized)) => {
                &&& r is Ok
                &&& *final(asset) == a
                &&& *final(position) == p
                &&& final(pool).processed_messages@ == old(pool).processed_messages@.push(
                    (InboundKey { src_eid: params.src_eid, sender: params.sender, nonce: params.nonce }),
                )
                &&& (LendingPool { processed_messages: old(pool).processed_messages, ..*final(pool) })
                    == *old(pool)
                &&& r->Ok_0.message == m
                &&& r->Ok_0.collateral_seized == seized
                &&& r->Ok_0.event == (CrossChainMessageReceivedEvent {
                    user: m.user,
                    action: m.action,
                    amount: m.amount,
                    source_chain: params.src_eid as u64,
                })
                &&& r->Ok_0.clear.receiver == old(pool).oapp_store
                &&& r->Ok_0.clear.src_eid == params.src_eid
                &&& r->Ok_0.clear.sender == params.sender
                &&& r->Ok_0.clear.nonce == params.nonce
                &&& r->Ok_0.clear.guid == params.guid
                &&& r->Ok_0.clear.message@ == params.message@
            },
            Err(e) => {
                &&& r is Err
                &&& r->Err_0 == e
                &&& *final(pool) == *old(pool)
                &&& *final(asset) == *old(asset)
                &&& *final(position) == *old(position)
            },
        },
{
    if !pool.is_supported(params.src_eid) {
        return Err(ErrorCode::ChainNotSupported);
    }
    if peer.eid != params.src_eid || !keys_equal(&peer.peer_address, &params.sender) {
        return Err(ErrorCode::CrossChainFailed);
    }
    if already_processed(pool, params.src_eid, &params.sender, params.nonce) {
        return Err(ErrorCode::CrossChainFailed);
    }
    let message = match decode_message(&params.message) {
        Err(e) => return Err(e),
        Ok(m) => m,
    };
    proof {
        let c = choose|m: CrossChainMessage| message_bytes(m) == params.message@;
        assert(message_bytes(message) == params.message@);
        assert(parsed(params.message@) == Some(c));
        crate::wire::lemma_message_bytes_injective(c, message);
    }
    if !keys_equal(&message.user, &position.user) || !keys_equal(&message.asset, &asset.mint) {
        return Err(ErrorCode::CrossChainFailed);
    }
    let seized: u64 = match message.action {
        MessageAction::Repay => {
            process_cross_chain_repay(asset, position, &message, quote)?;
            0
        },
        MessageAction::Liquidate => process_cross_chain_liquidation(asset, position, &message, quote)?,
        MessageAction::Borrow => return Err(ErrorCode::CrossChainFailed),
    };
    pool.processed_messages.push(
        InboundKey { src_eid: params.src_eid, sender: params.sender, nonce: params.nonce },
    );
    let mut copied: Vec<u8> = Vec::new();
    push_bytes(&mut copied, params.message.as_slice());
    let clear = ClearParams {
        receiver: pool.oapp_store,
        src_eid: params.src_eid,
        sender: params.sender,
        nonce: params.nonce,
        guid: params.guid,
        message: copied,
    };
    let event = CrossChainMessageReceivedEvent {
        user: message.user,
        action: message.action,
        amount: message.amount,
        source_chain: params.src_eid as u64,
    };
    Ok(ReceiveReceipt { message, collateral_seized: seized, event, clear })
}

/// `lz_receive` behind the pause flag: while the pool is paused every
/// delivery is refused with `NotAuthorized` and nothing changes.
pub fn layerzero_receive(pool: &mut LendingPool, peer: &PeerConfig, params: &LzReceiveParams, asset: &mut AssetInfo, position: &mut UserPosition, quote: &PriceQuote) -> (r: Result<ReceiveReceipt, ErrorCode>)
    ensures
        old(pool).is_paused ==> {
            &&& r is Err
            &&& r->Err_0 == ErrorCode::NotAuthorized
            &&& *final(pool) == *old(pool)
            &&& *final(asset) == *old(asset)
            &&& *final(position) == *old(position)
        },
        !old(pool).is_paused ==> match receive_outcome(
            *old(pool),
            *peer,
            params.src_eid,
            params.sender,
            params.nonce,
            params.message@,
            *old(asset),
            *old(position),
            *quote,
        ) {
            Ok((a, p, m, seized)) => {
                &&& r is Ok
                &&& *final(asset) == a
                &&& *final(position) == p
                &&& final(pool).processed_messages@ == old(pool).processed_messages@.push(
                    (InboundKey { src_eid: params.src_eid, sender: params.sender, nonce: params.nonce }),
                )
                &&& (LendingPool { processed_messages: old(pool).processed_messages, ..*final(pool) })
                    == *old(pool)
                &&& r->Ok_0.message == m
                &&& r->Ok_0.collateral_seized == seized
            },
            Err(e) => {
                &&& r is Err
                &&& r->Err_0 == e
                &&& *final(pool) == *old(pool)
                &&& *final(asset) == *old(asset)
                &&& *final(position) == *old(position)
            },
        },
{
    if pool.is_paused {
        return Err(ErrorCode::NotAuthorized);
    }
    lz_receive(pool, peer, params, asset, position, quote)
}

/// The accounts a delivery needs, as the executor reads them: the store, the
/// peer and the lending pool, 32 bytes each.
pub fn lz_receive_types(store: &Key, peer: &Key, lending_pool: &Key) -> (r: Vec<u8>)
    ensures
        r@ == store@ + peer@ + lending_pool@,
{
    let mut out: Vec<u8> = Vec::new();
    push_bytes(&mut out, store.as_slice());
    push_bytes(&mut out, peer.as_slice());
    push_bytes(&mut out, lending_pool.as_slice());
    out
}

} // verus!
