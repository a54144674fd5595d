//! Sample messages for exercising the contract.
use vstd::prelude::*;
use crate::decimal::{spec_one, Decimal};
use crate::state::{OrderPlacement, OrderType, PositionDirection, SettlementEntry};

verus! {

/// A buy of one `uatom` at one `usei`, by account `test`, opening a position.
pub fn vanilla_order_placement() -> (r: OrderPlacement)
    ensures
        r.id == 0,
        r.status == 0,
        r.account@ == "test"@,
        r.contract_address@ == "test"@,
        r.price_denom@ == "usei"@,
        r.asset_denom@ == "uatom"@,
        r.price == spec_one(),
        r.quantity == spec_one(),
        r.order_type == 0,
        r.position_direction == 0,
        r.data@ == "{\"position_effect\":\"Open\"}"@,
{
    OrderPlacement {
        id: 0,
        status: 0,
        account: String::from_str("test"),
        contract_address: String::from_str("test"),
        price_denom: String::from_str("usei"),
        asset_denom: String::from_str("uatom"),
        price: Decimal::one(),
        quantity: Decimal::one(),
        order_type: 0,
        position_direction: 0,
        data: String::from_str("{\"position_effect\":\"Open\"}"),
    }
}

/// A fill of one unit at a price of one against order 0, a limit buy of account `test`.
pub fn vanilla_settlement_entry() -> (r: SettlementEntry)
    ensures
        r.account@ == "test"@,
        r.price_denom@ == "usei"@,
        r.asset_denom@ == "uatom"@,
        r.quantity == spec_one(),
        r.execution_cost_or_proceed == spec_one(),
        r.expected_cost_or_proceed == spec_one(),
        r.position_direction == PositionDirection::Long,
        r.order_type == OrderType::Limit,
        r.order_id == 0,
{
    SettlementEntry {
        account: String::from_str("test"),
        price_denom: String::from_str("usei"),
        asset_denom: String::from_str("uatom"),
        quantity: Decimal::one(),
        execution_cost_or_proceed: Decimal::one(),
        expected_cost_or_proceed: Decimal::one(),
        position_direction: PositionDirection::Long,
        order_type: OrderType::Limit,
        order_id: 0,
    }
}

} // verus!
