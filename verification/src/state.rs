//! The data the contract keeps and exchanges: balances, orders, placements,
//! settlements, and the codes the exchange module uses for directions and types.
use vstd::prelude::*;
use crate::decimal::Decimal;
use crate::error::ContractError;

verus! {

/// What an account holds of one denom, and how much of that is withheld by
/// open orders.
#[derive(Clone, Copy, Debug, PartialEq, Eq, Structural)]
pub struct Balance {
    pub amount: Decimal,
    pub withheld: Decimal,
}

/// Long buys the asset denom with the price denom; Short sells it into the price denom.
#[derive(Clone, Copy, Debug, PartialEq, Eq, Structural, Hash)]
pub enum PositionDirection {
    Unknown,
    Long,
    Short,
}

#[derive(Clone, Copy, Debug, PartialEq, Eq, Structural, Hash)]
pub enum OrderType {
    Unknown,
    Limit,
    Market,
    Liquidation,
}

#[derive(Clone, Copy, Debug, PartialEq, Eq, Structural, Hash)]
pub enum PositionEffect {
    Unknown,
    Open,
    Close,
}

/// An order resting in the book of the contract.
#[derive(Clone, Debug, PartialEq)]
pub struct Order {
    pub id: u64,
    pub account: String,
    pub price_denom: String,
    pub asset_denom: String,
    pub price: Decimal,
    pub quantity: Decimal,
    pub remaining_quantity: Decimal,
    pub direction: PositionDirection,
    pub effect: PositionEffect,
    pub order_type: OrderType,
}

/// One fill reported by the exchange module.
#[derive(Clone, Debug, PartialEq)]
pub struct SettlementEntry {
    pub account: String,
    pub price_denom: String,
    pub asset_denom: String,
    pub quantity: Decimal,
    pub execution_cost_or_proceed: Decimal,
    pub expected_cost_or_proceed: Decimal,
    pub position_direction: PositionDirection,
    pub order_type: OrderType,
    pub order_id: u64,
}

/// An order as the exchange module places it, with its codes still as integers
/// and its extra data as JSON text.
#[derive(Clone, Debug, PartialEq)]
pub struct OrderPlacement {
    pub id: u64,
    pub status: i32,
    pub account: String,
    pub contract_address: String,
    pub price_denom: String,
    pub asset_denom: String,
    pub price: Decimal,
    pub quantity: Decimal,
    pub order_type: i32,
    pub position_direction: i32,
    pub data: String,
}

/// The content of an order placement's `data`.
#[derive(Clone, Copy, Debug, PartialEq, Eq, Structural)]
pub struct OrderData {
    pub position_effect: PositionEffect,
}

/// Funds credited to an account along with a batch of placements.
#[derive(Clone, Debug, PartialEq)]
pub struct DepositInfo {
    pub account: String,
    pub denom: String,
    pub amount: Decimal,
}

#[derive(Clone, Debug, PartialEq)]
pub struct LiquidationRequest {
    pub requestor: String,
    pub account: String,
}

#[derive(Clone, Debug, PartialEq, Eq, Hash)]
pub struct Pair {
    pub price_denom: String,
    pub asset_denom: String,
}

#[derive(Clone, Debug, PartialEq)]
pub struct LiquidationResponse {
    pub successful_accounts: Vec<String>,
    pub liquidation_orders: Vec<OrderPlacement>,
}

/// The direction that the exchange module's code stands for.
pub open spec fn direction_of_code(i: i32) -> PositionDirection {
    if i == 0 {
        PositionDirection::Long
    } else if i == 1 {
        PositionDirection::Short
    } else {
        PositionDirection::Unknown
    }
}

/// The order type that the exchange module's code stands for.
pub open spec fn order_type_of_code(i: i32) -> OrderType {
    if i == 0 {
        OrderType::Limit
    } else if i == 1 {
        OrderType::Market
    } else if i == 2 {
        OrderType::Liquidation
    } else {
        OrderType::Unknown
    }
}

/// Code 0 is Long, 1 is Short, anything else Unknown.
pub fn i32_to_direction(i: i32) -> (r: PositionDirection)
    ensures
        r == direction_of_code(i),
{
    match i {
        0i32 => PositionDirection::Long,
        1i32 => PositionDirection::Short,
        _ => PositionDirection::Unknown,
    }
}

/// Code 0 is Limit, 1 Market, 2 Liquidation, anything else Unknown.
pub fn i32_to_order_type(i: i32) -> (r: OrderType)
    ensures
        r == order_type_of_code(i),
{
    match i {
        0i32 => OrderType::Limit,
        1i32 => OrderType::Market,
        2i32 => OrderType::Liquidation,
        _ => OrderType::Unknown,
    }
}

/// The order that a placement opens, given the effect read from its data.
pub open spec fn placement_order(p: OrderPlacement, effect: PositionEffect) -> Order {
    Order {
        id: p.id,
        account: p.account,
        price_denom: p.price_denom,
        asset_denom: p.asset_denom,
        price: p.price,
        quantity: p.quantity,
        remaining_quantity: p.quantity,
        direction: direction_of_code(p.position_direction),
        effect: effect,
        order_type: order_type_of_code(p.order_type),
    }
}

impl Order {
    /// A copy of the order.
    pub fn copy(&self) -> (r: Order)
        ensures
            r == *self,
    {
        Order {
            id: self.id,
            account: self.account.clone(),
            price_denom: self.price_denom.clone(),
            asset_denom: self.asset_denom.clone(),
            price: self.price,
            quantity: self.quantity,
            remaining_quantity: self.remaining_quantity,
            direction: self.direction,
            effect: self.effect,
            order_type: self.order_type,
        }
    }

    /// The denom that an order of this direction withholds: the price denom
    /// for a buy, the asset denom for a sell.
    pub open spec fn withheld_denom(self) -> String {
        if self.direction == PositionDirection::Long {
            self.price_denom
        } else {
            self.asset_denom
        }
    }

    /// The denom that a fill of this order pays out: the asset denom for a
    /// buy, the price denom for a sell.
    pub open spec fn proceed_denom(self) -> String {
        if self.direction == PositionDirection::Long {
            self.asset_denom
        } else {
            self.price_denom
        }
    }
}

impl OrderPlacement {
    /// The order this placement opens. `order_data` is the placement's `data`
    /// read as JSON, `None` where that text is not an `OrderData`.
    pub fn to_order(&self, order_data: Option<OrderData>) -> (r: Result<Order, ContractError>)
        ensures
            order_data matches Some(d) ==> r == Ok::<Order, ContractError>(
                placement_order(*self, d.position_effect),
            ),
            order_data is None ==> r matches Err(ContractError::InvalidOrderData()),
    {
        let order_data = match order_data {
            Some(data) => data,
            None => return Err(ContractError::InvalidOrderData()),
        };
        let order = Order {
            id: self.id,
            account: self.account.clone(),
            price_denom: self.price_denom.clone(),
            asset_denom: self.asset_denom.clone(),
            price: self.price,
            quantity: self.quantity,
            remaining_quantity: self.quantity,
            direction: i32_to_direction(self.position_direction),
            order_type: i32_to_order_type(self.order_type),
            effect: order_data.position_effect,
        };
        Ok(order)
    }
}

} // verus!
