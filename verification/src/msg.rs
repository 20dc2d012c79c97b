//! Messages exchanged with the order book and the records it keeps.
//!
//! Amounts are `u128`, addresses are `String`, opaque payloads are bytes.

use crate::order::OrderStatus;
use vstd::prelude::*;

verus! {

#[derive(Clone, Debug, PartialEq)]
pub struct InitMsg {
    pub factory_address: String,
    pub factory_hash: String,
    pub factory_key: String,
    pub token1_info: AssetInfo,
    pub token2_info: AssetInfo,
    pub amm_pair_contract_address: String,
    pub amm_pair_contract_hash: String,
}

/// Messages sent to token contracts.
#[derive(Clone, Debug, PartialEq)]
pub enum Snip20Msg {
    RegisterReceive { code_hash: String, padding: Option<String> },
    Redeem { amount: u128, padding: Option<String> },
}

impl Snip20Msg {
    /// Asks a token contract to notify the code with hash `code_hash` of incoming transfers.
    pub fn register_receive(code_hash: String) -> (msg: Self)
        ensures
            msg == (Snip20Msg::RegisterReceive { code_hash, padding: None }),
    {
        Snip20Msg::RegisterReceive { code_hash, padding: None }
    }

    /// Asks a token contract to pay out `amount`.
    pub fn redeem(amount: u128) -> (msg: Self)
        ensures
            msg == (Snip20Msg::Redeem { amount, padding: None }),
    {
        Snip20Msg::Redeem { amount, padding: None }
    }
}

/// The factory's handle messages that the order book sends.
#[derive(Clone, Debug, PartialEq)]
pub enum FactoryHandleMsg {
    InitCallBackFromSecretOrderBookToFactory {
        auth_key: String,
        contract_address: String,
        amm_pair_address: String,
        token1_info: AssetInfo,
        token2_info: AssetInfo,
    },
}

#[derive(Clone, Debug, PartialEq)]
pub enum HandleMsg {
    Receive { sender: String, from: String, amount: u128, msg: Option<Vec<u8>> },
    CreateLimitOrder { is_bid: bool, price: u128, expected_amount: u128 },
    CancelLimitOrder {  },
    TriggerLimitOrders {  },
}

#[derive(Debug)]
pub enum HandleAnswer {
    /// Generic status response: success or failure, with a description.
    Status { status: ResponseStatus, message: Option<String> },
}

/// Success or failure response.
#[derive(Debug)]
pub enum ResponseStatus {
    Success,
    Failure,
}

pub enum QueryMsg {
    GetActiveLimitOrder { user_address: String, user_viewkey: String },
    GetHistoryLimitOrders {
        user_address: String,
        user_viewkey: String,
        page_size: Option<u32>,
        page: Option<u32>,
    },
    CheckOrderBookTrigger {  },
    OrderBookPairInfo {  },
}

pub enum QueryAnswer {
    ActiveLimitOrder { active_limit_order: Option<LimitOrderState> },
    HistoryLimitOrders { history_limit_orders: Vec<LimitOrderState> },
    OrderBookPair { amm_pair_address: String, assets_info: [AssetInfo; 2] },
}

#[derive(Clone, Debug, PartialEq)]
pub struct IsKeyValidResponse {
    pub is_key_valid: IsKeyValid,
}

#[derive(Clone, Debug, PartialEq)]
pub struct IsKeyValid {
    pub is_valid: bool,
}

pub enum FactoryQueryMsg {
    IsKeyValid { factory_key: String, viewing_key: String, address: String },
}

pub enum AmmFactoryQueryMsg {
    Pair { asset_infos: [AmmAssetInfo; 2] },
}

#[derive(Clone, Debug, PartialEq)]
pub enum AmmAssetInfo {
    Token { contract_addr: String, token_code_hash: String, viewing_key: String },
    NativeToken { denom: String },
}

pub struct AmmFactoryPairResponse {
    pub asset_infos: [AmmAssetInfo; 2],
    pub contract_addr: String,
    pub liquidity_token: String,
    pub token_code_hash: String,
}

#[allow(non_camel_case_types)]
pub enum AmmSimulationQuery {
    simulation { offer_asset: AmmSimulationOfferAsset },
    reverseSimulation { ask_asset: AmmSimulationOfferAsset },
}

pub struct AmmSimulationOfferAsset {
    pub info: AmmAssetInfo,
    pub amount: u128,
}

#[derive(Clone, Debug, PartialEq)]
pub struct AmmPairSimulationResponse {
    pub return_amount: u128,
    pub spread_amount: u128,
    pub commission_amount: u128,
}

#[derive(Clone, Debug, PartialEq)]
pub struct AmmPairReverseSimulationResponse {
    pub offer_amount: u128,
    pub spread_amount: u128,
    pub commission_amount: u128,
}

#[derive(Clone, Debug, PartialEq)]
pub struct ActiveLimitOrderQueryResponse {
    pub active_limit_order: Option<LimitOrderState>,
}

/// What the book keeps per user: the one order that may rest, and the
/// identifiers of the orders that have left the active slot, oldest first.
#[derive(Clone, Debug, PartialEq)]
pub struct UserOrderMap {
    pub active_order: Option<u128>,
    pub history_orders: Vec<u128>,
}

/// The state of one order as it is shown to its owner.
#[derive(Clone, Debug, PartialEq)]
pub struct LimitOrderState {
    pub is_bid: bool,
    pub status: OrderStatus,
    pub price: u128,
    pub deposit_token_index: i8,
    pub deposit_amount: u128,
    pub expected_amount: u128,
    pub fee_amount: u128,
    pub balances: Vec<u128>,
    pub withdrew_balance: Option<Vec<u128>>,
    pub timestamp: u64,
}

#[derive(Clone, Debug, PartialEq)]
pub struct AssetInfo {
    pub decimal_places: u8,
    pub base_amount: u128,
    pub fee_amount: u128,
    pub min_amount: u128,
    pub token: Option<Token>,
}

impl AssetInfo {
    /// A copy of the asset's description.
    pub fn duplicate(&self) -> (r: AssetInfo)
        ensures
            r == *self,
    {
        AssetInfo {
            decimal_places: self.decimal_places,
            base_amount: self.base_amount,
            fee_amount: self.fee_amount,
            min_amount: self.min_amount,
            token: match &self.token {
                Some(t) => Some(
                    Token {
                        contract_addr: t.contract_addr.clone(),
                        token_code_hash: t.token_code_hash.clone(),
                    },
                ),
                None => None,
            },
        }
    }
}

#[derive(Clone, Debug, PartialEq)]
pub struct Token {
    pub contract_addr: String,
    pub token_code_hash: String,
}

#[derive(Clone, Debug, PartialEq)]
pub struct NativeToken {
    pub denom: String,
}

} // verus!
