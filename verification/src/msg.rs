//! The messages the contract takes and the answers it gives.
use vstd::prelude::*;
use crate::state::{
    Balance, DepositInfo, LiquidationRequest, LiquidationResponse, Order, OrderPlacement,
    SettlementEntry,
};

verus! {

#[derive(Clone, Debug, PartialEq)]
pub struct MigrateMsg {}

#[derive(Clone, Debug, PartialEq)]
pub struct InstantiateMsg {}

/// The calls of the exchange module.
#[derive(Clone, Debug, PartialEq)]
pub enum SudoMsg {
    Settlement { epoch: i64, entries: Vec<SettlementEntry> },
    BulkOrderPlacements { orders: Vec<OrderPlacement>, deposits: Vec<DepositInfo> },
    BulkOrderCancellations { ids: Vec<u64> },
    Liquidation { requests: Vec<LiquidationRequest> },
}

/// The placements of a batch that were refused.
#[derive(Clone, Debug, PartialEq)]
pub struct BulkOrderPlacementsResponse {
    pub unsuccessful_orders: Vec<UnsuccessfulOrder>,
}

#[derive(Clone, Debug, PartialEq)]
pub struct UnsuccessfulOrder {
    pub id: u64,
    pub reason: String,
}

#[derive(Clone, Debug, PartialEq)]
pub enum QueryMsg {
    GetBalance { account: String, denom: String },
    GetOrder { id: u64 },
}

#[derive(Clone, Debug, PartialEq)]
pub struct GetBalanceResponse {
    pub balance: Balance,
}

#[derive(Clone, Debug, PartialEq)]
pub struct GetOrderResponse {
    pub order: Order,
}

/// The answer to a query, before it is encoded.
#[derive(Clone, Debug, PartialEq)]
pub enum QueryResponse {
    Balance(GetBalanceResponse),
    Order(GetOrderResponse),
}

/// An amount of a native token.
#[derive(Clone, Debug, PartialEq, Eq)]
pub struct Coin {
    pub denom: String,
    pub amount: u128,
}

/// The calls of users.
#[derive(Clone, Debug, PartialEq)]
pub enum ExecuteMsg {
    Deposit {},
    Withdraw { coins: Vec<Coin> },
}

/// Who called the contract and with which funds.
#[derive(Clone, Debug, PartialEq)]
pub struct MessageInfo {
    pub sender: String,
    pub funds: Vec<Coin>,
}

/// A transfer that the contract asks the bank module to make.
#[derive(Clone, Debug, PartialEq, Eq)]
pub enum BankMsg {
    Send { to_address: String, amount: Vec<Coin> },
}

/// The data a response carries, before it is encoded.
#[derive(Clone, Debug, PartialEq)]
pub enum ResponseData {
    BulkOrderPlacements(BulkOrderPlacementsResponse),
    Liquidation(LiquidationResponse),
}

/// The messages and data that a handled call gives back.
#[derive(Clone, Debug, PartialEq)]
pub struct Response {
    pub messages: Vec<BankMsg>,
    pub data: Option<ResponseData>,
}

/// A coin as its denom and amount.
pub type CoinView = (Seq<char>, u128);

/// A transfer as its recipient and coins.
pub type BankMsgView = (Seq<char>, Seq<CoinView>);

/// What the data of a response says: the refused placements with their
/// reasons, or a liquidation report with the accounts liquidated and the
/// orders placed to liquidate them.
pub enum ResponseDataView {
    BulkOrderPlacements(Seq<(u64, Seq<char>)>),
    Liquidation(Seq<Seq<char>>, Seq<OrderPlacement>),
}

pub open spec fn coin_view(c: Coin) -> CoinView {
    (c.denom@, c.amount)
}

pub open spec fn coins_view(cs: Seq<Coin>) -> Seq<CoinView> {
    cs.map_values(|c: Coin| coin_view(c))
}

pub open spec fn bank_msg_view(m: BankMsg) -> BankMsgView {
    match m {
        BankMsg::Send { to_address, amount } => (to_address@, coins_view(amount@)),
    }
}

pub open spec fn bank_msgs_view(ms: Seq<BankMsg>) -> Seq<BankMsgView> {
    ms.map_values(|m: BankMsg| bank_msg_view(m))
}

pub open spec fn unsuccessful_view(u: UnsuccessfulOrder) -> (u64, Seq<char>) {
    (u.id, u.reason@)
}

pub open spec fn unsuccessful_orders_view(us: Seq<UnsuccessfulOrder>) -> Seq<(u64, Seq<char>)> {
    us.map_values(|u: UnsuccessfulOrder| unsuccessful_view(u))
}

/// A liquidation report that names no account and no order.
pub open spec fn is_empty_liquidation(r: LiquidationResponse) -> bool {
    r.successful_accounts@.len() == 0 && r.liquidation_orders@.len() == 0
}

pub open spec fn response_data_view(d: Option<ResponseData>) -> Option<ResponseDataView> {
    match d {
        Some(ResponseData::BulkOrderPlacements(b)) => Some(
            ResponseDataView::BulkOrderPlacements(unsuccessful_orders_view(b.unsuccessful_orders@)),
        ),
        Some(ResponseData::Liquidation(l)) => Some(
            ResponseDataView::Liquidation(
                l.successful_accounts@.map_values(|a: String| a@),
                l.liquidation_orders@,
            ),
        ),
        None => None,
    }
}

impl Coin {
    /// `amount` of `denom`.
    pub fn new(amount: u128, denom: &str) -> (r: Coin)
        ensures
            r.amount == amount,
            r.denom@ == denom@,
    {
        Coin { denom: String::from_str(denom), amount }
    }
}

impl Response {
    /// A response with no message and no data.
    pub fn new() -> (r: Response)
        ensures
            r.messages@.len() == 0,
            r.data is None,
    {
        Response { messages: Vec::new(), data: None }
    }
}

} // verus!
