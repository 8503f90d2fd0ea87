//! The stored accounts of the pool, the records its operations emit, and the
//! parameters of the messaging endpoint.
use vstd::prelude::*;

use crate::error::ErrorCode;
use crate::risk::{check_price, price_usable, MAX_HEALTH_FACTOR, PRECISION};
use crate::wire::MessageAction;

verus! {

/// Identity of an account, a token mint or a remote address.
pub type Key = [u8; 32];

/// Largest number of remote chains the pool keeps in its allow-list.
pub const MAX_SUPPORTED_CHAINS: usize = 32;

/// Whether a key is the all-zero default key.
pub open spec fn is_unset_key(k: Key) -> bool {
    forall|i: int| 0 <= i < 32 ==> k@[i] == 0u8
}

/// Whether every element of `s` occurs once.
pub open spec fn no_duplicates<T>(s: Seq<T>) -> bool {
    forall|i: int, j: int| 0 <= i < j < s.len() ==> s[i] != s[j]
}

/// The key made of 32 zero bytes.
pub fn unset_key() -> (r: Key)
    ensures
        is_unset_key(r),
{
    [0u8; 32]
}

/// Byte-wise comparison of two keys.
pub fn keys_equal(a: &Key, b: &Key) -> (r: bool)
    ensures
        r == (a@ == b@),
{
    let mut i: usize = 0;
    while i < 32
        invariant
            i <= 32,
            a@.len() == 32,
            b@.len() == 32,
            forall|j: int| 0 <= j < i ==> a@[j] == b@[j],
        decreases 32 - i,
    {
        if a[i] != b[i] {
            return false;
        }
        i = i + 1;
    }
    assert(a@ =~= b@);
    true
}

/// Whether a key is the all-zero default key.
pub fn key_is_unset(k: &Key) -> (r: bool)
    ensures
        r == is_unset_key(*k),
{
    let mut i: usize = 0;
    while i < 32
        invariant
            i <= 32,
            k@.len() == 32,
            forall|j: int| 0 <= j < i ==> k@[j] == 0u8,
        decreases 32 - i,
    {
        if k[i] != 0 {
            return false;
        }
        i = i + 1;
    }
    true
}

/// The process-wide pool account.
#[derive(Clone, Debug)]
pub struct LendingPool {
    pub admin: Key,
    pub layerzero_endpoint: Key,
    pub delegate: Key,
    pub oapp_store: Key,
    pub is_paused: bool,
    pub total_assets: u64,
    /// Remote chain ids the pool exchanges messages with.
    pub supported_chains: Vec<u32>,
    /// Nonce that the next outbound message carries.
    pub message_nonce: u64,
    /// Inbound messages already applied, by source chain, sender and nonce.
    pub processed_messages: Vec<InboundKey>,
    /// Mints of the assets registered so far.
    pub registered_assets: Vec<Key>,
    pub bump: u8,
}

/// Identity of an inbound message for replay protection.
#[derive(Clone, Copy, Debug)]
pub struct InboundKey {
    pub src_eid: u32,
    pub sender: Key,
    pub nonce: u64,
}

impl InboundKey {
    pub open spec fn view(&self) -> (u32, Seq<u8>, u64) {
        (self.src_eid, self.sender@, self.nonce)
    }
}

impl LendingPool {
    pub open spec fn supports(&self, chain: u32) -> bool {
        self.supported_chains@.contains(chain)
    }

    /// Whether the message `(src_eid, sender, nonce)` was applied before.
    pub open spec fn has_processed(&self, src_eid: u32, sender: Seq<u8>, nonce: u64) -> bool {
        exists|i: int|
            0 <= i < self.processed_messages@.len() && #[trigger] self.processed_messages@[i]@ == (
            src_eid,
            sender,
            nonce,
            )
    }

    /// Whether an asset with this mint has been registered.
    pub open spec fn has_asset(&self, mint: Seq<u8>) -> bool {
        exists|i: int|
            0 <= i < self.registered_assets@.len() && #[trigger] self.registered_assets@[i]@ == mint
    }

    /// The chain allow-list holds each chain once and stays bounded.
    pub open spec fn wf(&self) -> bool {
        &&& no_duplicates(self.supported_chains@)
        &&& self.supported_chains@.len() <= MAX_SUPPORTED_CHAINS
    }
}

/// Per-asset configuration supplied by the administrator.
#[derive(Clone, Copy, Debug)]
pub struct AssetConfig {
    pub price_feed: Key,
    pub ltv: u64,
    pub liquidation_threshold: u64,
    pub can_be_collateral: bool,
    pub can_be_borrowed: bool,
}

impl AssetConfig {
    /// `0 < ltv <= liquidation_threshold <= PRECISION`.
    pub open spec fn is_valid(&self) -> bool {
        0 < self.ltv <= self.liquidation_threshold <= PRECISION
    }
}

/// Registry entry of one supported asset.
#[derive(Clone, Copy, Debug)]
pub struct AssetInfo {
    pub mint: Key,
    pub price_feed: Key,
    pub ltv: u64,
    pub liquidation_threshold: u64,
    pub is_active: bool,
    pub can_be_collateral: bool,
    pub can_be_borrowed: bool,
    pub total_deposits: u64,
    pub total_borrows: u64,
    pub decimals: u8,
    pub bump: u8,
}

/// Balances and risk figures of one user in one asset.
#[derive(Clone, Copy, Debug)]
pub struct UserPosition {
    pub user: Key,
    pub collateral_balance: u64,
    pub borrow_balance: u64,
    pub total_collateral_value_usd: u128,
    pub total_borrow_value_usd: u128,
    pub health_factor: u128,
    pub last_action_timestamp: i64,
    pub bump: u8,
}

impl UserPosition {
    /// A position that nobody has used yet.
    pub fn new(bump: u8) -> (r: UserPosition)
        ensures
            is_unset_key(r.user),
            r.collateral_balance == 0,
            r.borrow_balance == 0,
            r.total_collateral_value_usd == 0,
            r.total_borrow_value_usd == 0,
            r.health_factor == MAX_HEALTH_FACTOR,
            r.last_action_timestamp == 0,
            r.bump == bump,
    {
        UserPosition {
            user: unset_key(),
            collateral_balance: 0,
            borrow_balance: 0,
            total_collateral_value_usd: 0,
            total_borrow_value_usd: 0,
            health_factor: MAX_HEALTH_FACTOR,
            last_action_timestamp: 0,
            bump,
        }
    }
}

/// Oracle quotes (eight decimals) that an operation values a position with.
#[derive(Clone, Copy, Debug)]
pub struct PriceQuote {
    pub collateral_price: u64,
    pub borrow_price: u64,
}

/// A price as the oracle reports it, with the time it was published.
#[derive(Clone, Copy, Debug)]
pub struct OracleReading {
    pub price: u64,
    pub published_at: i64,
}

impl PriceQuote {
    /// The quotes of two oracle readings, provided both are usable at `now`;
    /// else `InvalidPriceData`.
    pub fn from_oracle(collateral: OracleReading, borrow: OracleReading, now: i64) -> (r: Result<PriceQuote, ErrorCode>)
        ensures
            r is Ok <==> price_usable(collateral.price, collateral.published_at, now)
                && price_usable(borrow.price, borrow.published_at, now),
            r is Ok ==> r->Ok_0 == (PriceQuote {
                collateral_price: collateral.price,
                borrow_price: borrow.price,
            }),
            r is Err ==> r->Err_0 == ErrorCode::InvalidPriceData,
    {
        let collateral_price = check_price(collateral.price, collateral.published_at, now)?;
        let borrow_price = check_price(borrow.price, borrow.published_at, now)?;
        Ok(PriceQuote { collateral_price, borrow_price })
    }
}

/// The store that the executor looks up to find the accounts of a delivery.
#[derive(Clone, Copy, Debug)]
pub struct LzReceiveTypesAccounts {
    pub store: Key,
}

/// The store that the executor looks up to find the accounts of a compose.
#[derive(Clone, Copy, Debug)]
pub struct LzComposeTypesAccounts {
    pub store: Key,
}

/// Messaging store of the pool on this chain.
#[derive(Clone, Copy, Debug)]
pub struct OAppStore {
    pub admin: Key,
    pub endpoint_program: Key,
    pub bump: u8,
    pub lending_pool: Key,
}

/// The registered counterpart of the pool on one remote chain.
#[derive(Clone, Copy, Debug)]
pub struct PeerConfig {
    pub eid: u32,
    pub peer_address: Key,
    pub bump: u8,
}

#[derive(Clone, Copy, Debug)]
pub struct InitStoreParams {
    pub admin: Key,
    pub endpoint: Key,
}

#[derive(Clone, Copy, Debug)]
pub struct RegisterOAppParams {
    pub delegate: Key,
}

/// An inbound delivery handed over by the messaging endpoint.
#[derive(Clone, Debug)]
pub struct LzReceiveParams {
    pub src_eid: u32,
    pub sender: Key,
    pub nonce: u64,
    pub guid: Key,
    pub message: Vec<u8>,
}

/// What the endpoint is told once an inbound message has been applied.
#[derive(Clone, Debug)]
pub struct ClearParams {
    pub receiver: Key,
    pub src_eid: u32,
    pub sender: Key,
    pub nonce: u64,
    pub guid: Key,
    pub message: Vec<u8>,
}

/// An outbound message and the fee its sender offers.
#[derive(Clone, Debug)]
pub struct SendParams {
    pub dst_eid: u32,
    pub receiver: Key,
    pub message: Vec<u8>,
    pub options: Vec<u8>,
    pub native_fee: u64,
    pub lz_token_fee: u64,
}

#[derive(Clone, Copy, Debug)]
pub struct MessageFeeResult {
    pub native_fee: u64,
    pub lz_token_fee: u64,
}

/// What the endpoint answers to a send: a delivery id if it assigned one.
#[derive(Clone, Copy, Debug)]
pub struct SendResult {
    pub guid: Option<Key>,
    pub nonce: u64,
}

#[derive(Clone, Copy, Debug)]
pub struct AssetAddedEvent {
    pub mint: Key,
    pub ltv: u64,
    pub liquidation_threshold: u64,
}

#[derive(Clone, Copy, Debug)]
pub struct DepositEvent {
    pub user: Key,
    pub mint: Key,
    pub amount: u64,
    pub chain_selector: u64,
}

#[derive(Clone, Copy, Debug)]
pub struct BorrowEvent {
    pub user: Key,
    pub mint: Key,
    pub amount: u64,
    pub dest_chain: u64,
    pub health_factor: u128,
}

#[derive(Clone, Copy, Debug)]
pub struct RepayEvent {
    pub user: Key,
    pub mint: Key,
    pub amount: u64,
}

#[derive(Clone, Copy, Debug)]
pub struct WithdrawEvent {
    pub user: Key,
    pub mint: Key,
    pub amount: u64,
}

#[derive(Clone, Copy, Debug)]
pub struct LiquidationEvent {
    pub liquidator: Key,
    pub borrower: Key,
    pub debt_amount: u64,
    pub collateral_seized: u64,
    pub health_factor: u128,
}

#[derive(Clone, Copy, Debug)]
pub struct CrossChainMessageReceivedEvent {
    pub user: Key,
    pub action: MessageAction,
    pub amount: u64,
    pub source_chain: u64,
}

#[derive(Clone, Copy, Debug)]
pub struct ProtocolPausedEvent {
    pub admin: Key,
}

#[derive(Clone, Copy, Debug)]
pub struct ProtocolUnpausedEvent {
    pub admin: Key,
}

#[derive(Clone, Debug)]
pub struct CrossChainMessageSentEvent {
    pub guid: Key,
    pub user: Key,
    pub action: String,
    pub dest_chain: u64,
    pub nonce: u64,
}

} // verus!
