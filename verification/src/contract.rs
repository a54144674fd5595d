//! The entry points of the contract and the handling of each message.
//!
//! Each handler works on the contract's `Storage`. Where a handler answers with
//! an error, the contracts below also say what the storage holds at that point
//! (the host then discards the call's writes as a whole).
use vstd::prelude::*;
use crate::balance::{balance_of, get_balance, save_balance, with_balance};
use crate::decimal::{spec_add, spec_from_atomics, spec_mul, spec_sub, Decimal};
use crate::error::{ContractError, ContractErrorView, StdError, StdErrorView};
use crate::msg::{
    bank_msg_view, bank_msgs_view, coins_view, is_empty_liquidation, response_data_view,
    unsuccessful_orders_view, unsuccessful_view, BankMsg, BankMsgView, BulkOrderPlacementsResponse,
    Coin, ExecuteMsg, GetBalanceResponse, GetOrderResponse, InstantiateMsg, MessageInfo, MigrateMsg,
    QueryMsg, QueryResponse, Response, ResponseData, ResponseDataView, SudoMsg, UnsuccessfulOrder,
};
use crate::order::{delete_order, get_order, order_kind, save_order, with_order, without_order};
use crate::state::{
    placement_order, Balance, DepositInfo, LiquidationResponse, Order, OrderData, OrderPlacement,
    PositionDirection, SettlementEntry,
};
use crate::not_found::{
    contract_info_storage_key, contract_info_storage_key_bytes, object_info, object_info_text,
};
use crate::storage::{Storage, StorageView};
use crate::utils::{decimal_to_u128, whole_part};
use crate::version::{parse_version, semver_not_older, semver_parse_error, version_at_least};

verus! {

/// How handling a message, or one item of it, goes: on to a result, to a
/// refusal with an error (with the storage as it stands when the error
/// arises), or to an abort of the call (an arithmetic overflow or an amount
/// that would go below zero).
pub enum Flow<T> {
    Go(T),
    Stop(StorageView, ContractErrorView),
    Panic,
}

/// What a handled message leaves: the storage, the transfers asked of the
/// bank, and the data of the response.
pub type Outcome = (StorageView, Seq<BankMsgView>, Option<ResponseDataView>);

/// `r` is the answer that `flow` prescribes, and `after` the storage it leaves
/// where it succeeds.
pub open spec fn handled(flow: Flow<Outcome>, after: StorageView, r: Result<Response, ContractError>) -> bool {
    match flow {
        Flow::Go((s, msgs, data)) => r matches Ok(resp) && after == s && bank_msgs_view(
            resp.messages@,
        ) == msgs && response_data_view(resp.data) == data,
        Flow::Stop(st, e) => r matches Err(err) && err@ == e && after == st,
        Flow::Panic => false,
    }
}

/// `r` is the answer that `flow` prescribes, and `None` exactly where the
/// flow aborts.
pub open spec fn attempted(
    flow: Flow<Outcome>,
    after: StorageView,
    r: Option<Result<Response, ContractError>>,
) -> bool {
    match r {
        Some(x) => handled(flow, after, x),
        None => flow is Panic,
    }
}

// ---------------------------------------------------------------------------
// Settlements
// ---------------------------------------------------------------------------

/// The storage once a fill of `quantity` is recorded against `order`, stored
/// under `id`: a full fill removes the order, a partial one lowers what remains.
pub open spec fn after_fill(s: StorageView, id: u64, order: Order, quantity: Decimal) -> StorageView {
    if quantity.atomics == order.remaining_quantity.atomics {
        without_order(s, id)
    } else {
        with_order(
            s,
            Order {
                remaining_quantity: Decimal {
                    atomics: (order.remaining_quantity.atomics - quantity.atomics) as u128,
                },
                ..order
            },
        )
    }
}

/// Settling one fill. A fill of an unknown order is skipped. A fill larger than
/// what remains of the order is refused. Otherwise the order is filled, the
/// withheld denom (price denom for a buy, asset denom for a sell) loses the
/// cost of the fill from both its amount and its withheld part, and the
/// proceeds (the quantity for a buy, the quantity times the price for a sell)
/// are sent to the account, in whole units.
pub open spec fn settle_step(s: StorageView, e: SettlementEntry) -> Flow<
    (StorageView, Option<BankMsgView>),
> {
    match s.orders.get(e.order_id) {
        None => Flow::Go((s, None)),
        Some(order) => {
            if e.quantity.atomics > order.remaining_quantity.atomics {
                Flow::Stop(s, ContractErrorView::InvalidSettlement("Quantity too large"@))
            } else {
                let s1 = after_fill(s, e.order_id, order, e.quantity);
                let is_buy = order.direction == PositionDirection::Long;
                let delta = if is_buy {
                    spec_mul(e.execution_cost_or_proceed, e.quantity)
                } else {
                    Some(e.quantity)
                };
                let proceed = if is_buy {
                    Some(e.quantity)
                } else {
                    spec_mul(e.quantity, e.execution_cost_or_proceed)
                };
                match (delta, proceed) {
                    (Some(delta), Some(proceed)) => {
                        let denom = order.withheld_denom()@;
                        let bal = balance_of(s1, order.account@, denom);
                        if delta.atomics > bal.amount.atomics || delta.atomics > bal.withheld.atomics {
                            Flow::Stop(
                                s1,
                                ContractErrorView::InvalidSettlement(
                                    "Insufficient withheld balance"@,
                                ),
                            )
                        } else {
                            let nb = Balance {
                                amount: Decimal {
                                    atomics: (bal.amount.atomics - delta.atomics) as u128,
                                },
                                withheld: Decimal {
                                    atomics: (bal.withheld.atomics - delta.atomics) as u128,
                                },
                            };
                            Flow::Go(
                                (
                                    with_balance(s1, order.account@, denom, nb),
                                    Some(
                                        (
                                            order.account@,
                                            seq![(order.proceed_denom()@, whole_part(proceed))],
                                        ),
                                    ),
                                ),
                            )
                        }
                    },
                    _ => Flow::Panic,
                }
            }
        },
    }
}

/// Settling the fills in turn, collecting the transfers they make.
pub open spec fn settle_all(
    s: StorageView,
    msgs: Seq<BankMsgView>,
    entries: Seq<SettlementEntry>,
) -> Flow<(StorageView, Seq<BankMsgView>)>
    decreases entries.len(),
{
    if entries.len() == 0 {
        Flow::Go((s, msgs))
    } else {
        match settle_step(s, entries[0]) {
            Flow::Go((s1, m)) => settle_all(
                s1,
                match m {
                    Some(x) => msgs.push(x),
                    None => msgs,
                },
                entries.drop_first(),
            ),
            Flow::Stop(st, e) => Flow::Stop(st, e),
            Flow::Panic => Flow::Panic,
        }
    }
}

/// Handling a batch of fills.
pub open spec fn settlement_flow(s: StorageView, entries: Seq<SettlementEntry>) -> Flow<Outcome> {
    match settle_all(s, seq![], entries) {
        Flow::Go((s1, msgs)) => Flow::Go((s1, msgs, None)),
        Flow::Stop(st, e) => Flow::Stop(st, e),
        Flow::Panic => Flow::Panic,
    }
}

fn settle_entry(storage: &mut Storage, entry: &SettlementEntry) -> (r: Option<
    Result<Option<BankMsg>, ContractError>,
>)
    requires
        old(storage).wf(),
    ensures
        final(storage).wf(),
        match settle_step(old(storage)@, *entry) {
            Flow::Go((s, m)) => r matches Some(Ok(mm)) && final(storage)@ == s && match mm {
                Some(x) => m == Some(bank_msg_view(x)),
                None => m is None,
            },
            Flow::Stop(st, e) => r matches Some(Err(err)) && err@ == e && final(storage)@ == st,
            Flow::Panic => r is None,
        },
{
    let ghost s0 = storage@;
    let order_result = get_order(storage, entry.order_id);
    let mut order = match order_result {
        Ok(order) => order,
        Err(_) => return Some(Ok(None)),
    };
    if entry.quantity.atomics > order.remaining_quantity.atomics {
        return Some(Err(ContractError::InvalidSettlement(String::from_str("Quantity too large"))));
    }
    if entry.quantity.atomics == order.remaining_quantity.atomics {
        delete_order(storage, entry.order_id);
    } else {
        order.remaining_quantity = order.remaining_quantity.checked_sub(entry.quantity).unwrap();
        save_order(storage, &order);
    }
    let ghost s1 = storage@;
    assert(s1 == after_fill(s0, entry.order_id, s0.orders[entry.order_id], entry.quantity));
    let is_buy = order.direction == PositionDirection::Long;
    let withheld_denom = if is_buy {
        order.price_denom.clone()
    } else {
        order.asset_denom.clone()
    };
    let withheld_delta = if is_buy {
        match entry.execution_cost_or_proceed.checked_mul(entry.quantity) {
            Some(d) => d,
            None => return None,
        }
    } else {
        entry.quantity
    };
    let proceed_denom = if is_buy {
        order.asset_denom.clone()
    } else {
        order.price_denom.clone()
    };
    let proceed_amount = if is_buy {
        entry.quantity
    } else {
        match entry.quantity.checked_mul(entry.execution_cost_or_proceed) {
            Some(p) => p,
            None => return None,
        }
    };
    let mut withheld_balance = get_balance(storage, order.account.clone(), withheld_denom.clone());
    if withheld_delta.atomics > withheld_balance.amount.atomics || withheld_delta.atomics
        > withheld_balance.withheld.atomics {
        return Some(
            Err(ContractError::InvalidSettlement(String::from_str("Insufficient withheld balance"))),
        );
    }
    withheld_balance.amount = withheld_balance.amount.checked_sub(withheld_delta).unwrap();
    withheld_balance.withheld = withheld_balance.withheld.checked_sub(withheld_delta).unwrap();
    save_balance(storage, order.account.clone(), withheld_denom, &withheld_balance);
    let mut funds_to_send: Vec<Coin> = Vec::new();
    funds_to_send.push(Coin { denom: proceed_denom, amount: decimal_to_u128(proceed_amount) });
    let msg = BankMsg::Send { to_address: order.account.clone(), amount: funds_to_send };
    assert(crate::msg::coins_view(funds_to_send@) =~= seq![
        (s0.orders[entry.order_id].proceed_denom()@, whole_part(proceed_amount)),
    ]);
    Some(Ok(Some(msg)))
}

/// Settles the fills reported by the exchange module, in order, and asks the
/// bank to send each account the proceeds of its fills.
pub fn process_settlements(storage: &mut Storage, settlements: Vec<SettlementEntry>) -> (r: Option<
    Result<Response, ContractError>,
>)
    requires
        old(storage).wf(),
    ensures
        final(storage).wf(),
        attempted(settlement_flow(old(storage)@, settlements@), final(storage)@, r),
{
    let ghost s0 = storage@;
    let ghost entries = settlements@;
    let mut response = Response::new();
    assert(bank_msgs_view(response.messages@) =~= seq![]);
    let mut i: usize = 0;
    assert(entries.skip(0) =~= entries);
    while i < settlements.len()
        invariant
            storage.wf(),
            s0 == old(storage)@,
            entries == settlements@,
            i <= entries.len(),
            response.data is None,
            settle_all(s0, seq![], entries) == settle_all(
                storage@,
                bank_msgs_view(response.messages@),
                entries.skip(i as int),
            ),
        decreases entries.len() - i,
    {
        let ghost msgs = bank_msgs_view(response.messages@);
        let ghost before = storage@;
        assert(entries.skip(i as int)[0] == entries[i as int]);
        assert(entries.skip(i as int).drop_first() =~= entries.skip(i + 1));
        let r = settle_entry(storage, &settlements[i]);
        match r {
            Some(Ok(Some(m))) => {
                response.messages.push(m);
                assert(bank_msgs_view(response.messages@) =~= msgs.push(bank_msg_view(m)));
            },
            Some(Ok(None)) => {},
            None => {
                assert(settle_all(before, msgs, entries.skip(i as int)) is Panic);
                return None;
            },
            Some(Err(e)) => {
                assert(settle_step(before, entries[i as int]) matches Flow::Stop(st, x) && x == e@
                    && st == storage@);
                assert(settle_all(before, msgs, entries.skip(i as int)) matches Flow::Stop(st, x) && x
                    == e@ && st == storage@);
                assert(settle_all(s0, seq![], entries) matches Flow::Stop(st, x) && x == e@ && st
                    == storage@);
                return Some(Err(e));
            },
        }
        i = i + 1;
    }
    assert(entries.skip(i as int) =~= seq![]);
    Some(Ok(response))
}

// ---------------------------------------------------------------------------
// Order placements
// ---------------------------------------------------------------------------

/// Crediting one deposit to its account.
pub open spec fn credit_step(s: StorageView, d: DepositInfo) -> Flow<StorageView> {
    let bal = balance_of(s, d.account@, d.denom@);
    match spec_add(bal.amount, d.amount) {
        Some(a) => Flow::Go(with_balance(s, d.account@, d.denom@, Balance { amount: a, ..bal })),
        None => Flow::Panic,
    }
}

/// Crediting the deposits in turn.
pub open spec fn credit_all(s: StorageView, deposits: Seq<DepositInfo>) -> Flow<StorageView>
    decreases deposits.len(),
{
    if deposits.len() == 0 {
        Flow::Go(s)
    } else {
        match credit_step(s, deposits[0]) {
            Flow::Go(s1) => credit_all(s1, deposits.drop_first()),
            Flow::Stop(st, e) => Flow::Stop(st, e),
            Flow::Panic => Flow::Panic,
        }
    }
}

/// The reason given for a placement that the balance does not cover.
pub open spec fn insufficient_balance_reason() -> Seq<char> {
    "Insufficient balance"@
}

/// Placing one order. A placement whose data is not an `OrderData` refuses the
/// batch. A buy withholds its price times its quantity of the price denom, a
/// sell its quantity of the asset denom; where the part of the balance that is
/// not yet withheld is smaller, the placement is turned down and listed,
/// otherwise the amount is withheld and the order stored.
pub open spec fn place_step(
    s: StorageView,
    refused: Seq<(u64, Seq<char>)>,
    p: OrderPlacement,
    data: Option<OrderData>,
) -> Flow<(StorageView, Seq<(u64, Seq<char>)>)> {
    match data {
        None => Flow::Stop(s, ContractErrorView::InvalidOrderData),
        Some(d) => {
            let order = placement_order(p, d.position_effect);
            let nominal = if order.direction == PositionDirection::Long {
                spec_mul(order.price, order.quantity)
            } else {
                Some(order.quantity)
            };
            let denom = order.withheld_denom()@;
            let bal = balance_of(s, order.account@, denom);
            match (nominal, spec_sub(bal.amount, bal.withheld)) {
                (Some(n), Some(usage)) => {
                    if usage.atomics < n.atomics {
                        Flow::Go((s, refused.push((order.id, insufficient_balance_reason()))))
                    } else {
                        match spec_add(bal.withheld, n) {
                            Some(w) => Flow::Go(
                                (
                                    with_order(
                                        with_balance(
                                            s,
                                            order.account@,
                                            denom,
                                            Balance { withheld: w, ..bal },
                                        ),
                                        order,
                                    ),
                                    refused,
                                ),
                            ),
                            None => Flow::Panic,
                        }
                    }
                },
                _ => Flow::Panic,
            }
        },
    }
}

/// Placing the orders in turn, each with the data read from its placement.
pub open spec fn place_all(
    s: StorageView,
    refused: Seq<(u64, Seq<char>)>,
    placements: Seq<OrderPlacement>,
    data: Seq<Option<OrderData>>,
) -> Flow<(StorageView, Seq<(u64, Seq<char>)>)>
    decreases placements.len(),
{
    if placements.len() == 0 {
        Flow::Go((s, refused))
    } else {
        match place_step(s, refused, placements[0], data[0]) {
            Flow::Go((s1, r1)) => place_all(s1, r1, placements.drop_first(), data.drop_first()),
            Flow::Stop(st, e) => Flow::Stop(st, e),
            Flow::Panic => Flow::Panic,
        }
    }
}

/// A batch of placements: the deposits are credited first, then the orders placed.
pub open spec fn bulk_place(
    s: StorageView,
    placements: Seq<OrderPlacement>,
    data: Seq<Option<OrderData>>,
    deposits: Seq<DepositInfo>,
) -> Flow<(StorageView, Seq<(u64, Seq<char>)>)> {
    match credit_all(s, deposits) {
        Flow::Go(s1) => place_all(s1, seq![], placements, data),
        Flow::Stop(st, e) => Flow::Stop(st, e),
        Flow::Panic => Flow::Panic,
    }
}

/// Handling a batch of placements.
pub open spec fn placement_flow(
    s: StorageView,
    placements: Seq<OrderPlacement>,
    data: Seq<Option<OrderData>>,
    deposits: Seq<DepositInfo>,
) -> Flow<Outcome> {
    match bulk_place(s, placements, data, deposits) {
        Flow::Go((s1, refused)) => Flow::Go(
            (s1, seq![], Some(ResponseDataView::BulkOrderPlacements(refused))),
        ),
        Flow::Stop(st, e) => Flow::Stop(st, e),
        Flow::Panic => Flow::Panic,
    }
}

fn credit_deposit(storage: &mut Storage, deposit: &DepositInfo) -> (r: Option<()>)
    requires
        old(storage).wf(),
    ensures
        final(storage).wf(),
        r is Some ==> credit_step(old(storage)@, *deposit) == Flow::Go(final(storage)@),
        r is None ==> credit_step(old(storage)@, *deposit) is Panic,
{
    let mut balance = get_balance(storage, deposit.account.clone(), deposit.denom.clone());
    balance.amount = match balance.amount.checked_add(deposit.amount) {
        Some(a) => a,
        None => return None,
    };
    save_balance(storage, deposit.account.clone(), deposit.denom.clone(), &balance);
    Some(())
}

fn place_order(storage: &mut Storage, placement: &OrderPlacement, data: Option<OrderData>) -> (r: Option<
    Result<Option<UnsuccessfulOrder>, ContractError>,
>)
    requires
        old(storage).wf(),
    ensures
        final(storage).wf(),
        match place_step(old(storage)@, seq![], *placement, data) {
            Flow::Go((s, refused)) => r matches Some(Ok(u)) && final(storage)@ == s && match u {
                Some(x) => refused == seq![unsuccessful_view(x)],
                None => refused == Seq::<(u64, Seq<char>)>::empty(),
            },
            Flow::Stop(st, e) => r matches Some(Err(err)) && err@ == e && final(storage)@ == st,
            Flow::Panic => r is None,
        },
{
    let order = match placement.to_order(data) {
        Ok(order) => order,
        Err(e) => return Some(Err(e)),
    };
    let denom = if order.direction == PositionDirection::Long {
        order.price_denom.clone()
    } else {
        order.asset_denom.clone()
    };
    let nominal = if order.direction == PositionDirection::Long {
        match order.price.checked_mul(order.quantity) {
            Some(n) => n,
            None => return None,
        }
    } else {
        order.quantity
    };
    let mut balance = get_balance(storage, order.account.clone(), denom.clone());
    let usage_balance = match balance.amount.checked_sub(balance.withheld) {
        Some(u) => u,
        None => return None,
    };
    if usage_balance.atomics < nominal.atomics {
        proof {
            reveal_strlit("Insufficient balance");
        }
        return Some(
            Ok(Some(UnsuccessfulOrder { id: order.id, reason: String::from_str("Insufficient balance") })),
        );
    }
    balance.withheld = match balance.withheld.checked_add(nominal) {
        Some(w) => w,
        None => return None,
    };
    save_balance(storage, order.account.clone(), denom, &balance);
    save_order(storage, &order);
    Some(Ok(None))
}

/// Credits the deposits of a batch, then places its orders in turn. The response
/// lists the placements that the balance did not cover, with their reasons.
/// `order_data[i]` is the `data` of `orders[i]` read as JSON, `None` where that
/// text is not an `OrderData`.
pub fn process_bulk_order_placements(
    storage: &mut Storage,
    orders: Vec<OrderPlacement>,
    order_data: Vec<Option<OrderData>>,
    deposits: Vec<DepositInfo>,
) -> (r: Option<Result<Response, ContractError>>)
    requires
        old(storage).wf(),
        orders@.len() == order_data@.len(),
    ensures
        final(storage).wf(),
        attempted(placement_flow(old(storage)@, orders@, order_data@, deposits@), final(storage)@, r),
{
    let ghost s0 = storage@;
    let ghost ds = deposits@;
    let mut i: usize = 0;
    assert(ds.skip(0) =~= ds);
    while i < deposits.len()
        invariant
            storage.wf(),
            s0 == old(storage)@,
            ds == deposits@,
            i <= ds.len(),
            credit_all(s0, ds) == credit_all(storage@, ds.skip(i as int)),
        decreases ds.len() - i,
    {
        let ghost before = storage@;
        assert(ds.skip(i as int)[0] == ds[i as int]);
        assert(ds.skip(i as int).drop_first() =~= ds.skip(i + 1));
        if credit_deposit(storage, &deposits[i]).is_none() {
            assert(credit_all(before, ds.skip(i as int)) is Panic);
            return None;
        }
        i = i + 1;
    }
    assert(ds.skip(i as int) =~= seq![]);
    let ghost s1 = storage@;
    let ghost ps = orders@;
    let ghost pd = order_data@;
    let mut unsuccessful_orders: Vec<UnsuccessfulOrder> = Vec::new();
    assert(unsuccessful_orders_view(unsuccessful_orders@) =~= seq![]);
    let mut j: usize = 0;
    assert(ps.skip(0) =~= ps);
    assert(pd.skip(0) =~= pd);
    while j < orders.len()
        invariant
            storage.wf(),
            s0 == old(storage)@,
            ps == orders@,
            pd == order_data@,
            ps.len() == pd.len(),
            j <= ps.len(),
            bulk_place(s0, ps, pd, deposits@) == place_all(s1, seq![], ps, pd),
            place_all(s1, seq![], ps, pd) == place_all(
                storage@,
                unsuccessful_orders_view(unsuccessful_orders@),
                ps.skip(j as int),
                pd.skip(j as int),
            ),
        decreases ps.len() - j,
    {
        let ghost before = storage@;
        let ghost refused = unsuccessful_orders_view(unsuccessful_orders@);
        assert(ps.skip(j as int)[0] == ps[j as int]);
        assert(pd.skip(j as int)[0] == pd[j as int]);
        assert(ps.skip(j as int).drop_first() =~= ps.skip(j + 1));
        assert(pd.skip(j as int).drop_first() =~= pd.skip(j + 1));
        proof {
            lemma_place_step_refused(before, refused, ps[j as int], pd[j as int]);
        }
        let r = place_order(storage, &orders[j], order_data[j]);
        match r {
            None => {
                assert(place_all(before, refused, ps.skip(j as int), pd.skip(j as int)) is Panic);
                return None;
            },
            Some(Ok(Some(u))) => {
                unsuccessful_orders.push(u);
                assert(unsuccessful_orders_view(unsuccessful_orders@) =~= refused.push(
                    unsuccessful_view(u),
                ));
                assert(refused + seq![unsuccessful_view(u)] =~= refused.push(unsuccessful_view(u)));
            },
            Some(Ok(None)) => {
                assert(refused + Seq::<(u64, Seq<char>)>::empty() =~= refused);
            },
            Some(Err(e)) => {
                assert(place_all(before, refused, ps.skip(j as int), pd.skip(j as int)) matches Flow::Stop(
                    st,
                    x,
                ) && x == e@ && st == storage@);
                return Some(Err(e));
            },
        }
        j = j + 1;
    }
    assert(ps.skip(j as int) =~= seq![]);
    let response = BulkOrderPlacementsResponse { unsuccessful_orders };
    let r = Response { messages: Vec::new(), data: Some(ResponseData::BulkOrderPlacements(response)) };
    assert(bank_msgs_view(r.messages@) =~= seq![]);
    Some(Ok(r))
}

/// A placement's step does not depend on the placements refused before it,
/// other than by adding to them.
proof fn lemma_place_step_refused(
    s: StorageView,
    refused: Seq<(u64, Seq<char>)>,
    p: OrderPlacement,
    data: Option<OrderData>,
)
    ensures
        match place_step(s, seq![], p, data) {
            Flow::Go((s1, r1)) => place_step(s, refused, p, data) == Flow::Go((s1, refused + r1)),
            Flow::Stop(st, e) => place_step(s, refused, p, data) == Flow::<
                (StorageView, Seq<(u64, Seq<char>)>),
            >::Stop(st, e),
            Flow::Panic => place_step(s, refused, p, data) is Panic,
        },
{
    assert(refused + seq![] =~= refused);
    assert(refused + seq![(p.id, insufficient_balance_reason())] =~= refused.push(
        (p.id, insufficient_balance_reason()),
    ));
}

// ---------------------------------------------------------------------------
// Order cancellations
// ---------------------------------------------------------------------------

/// Cancelling one order: an unknown id is skipped; otherwise what the order
/// still withholds (what remains of it times its price of the price denom for
/// a buy, what remains of it of the asset denom for a sell) is released, and
/// the order removed.
pub open spec fn cancel_step(s: StorageView, id: u64) -> Flow<StorageView> {
    match s.orders.get(id) {
        None => Flow::Go(s),
        Some(o) => {
            let delta = if o.direction == PositionDirection::Long {
                spec_mul(o.remaining_quantity, o.price)
            } else {
                Some(o.remaining_quantity)
            };
            let denom = o.withheld_denom()@;
            let bal = balance_of(s, o.account@, denom);
            match delta {
                Some(delta) => match spec_sub(bal.withheld, delta) {
                    Some(w) => Flow::Go(
                        without_order(
                            with_balance(s, o.account@, denom, Balance { withheld: w, ..bal }),
                            id,
                        ),
                    ),
                    None => Flow::Panic,
                },
                None => Flow::Panic,
            }
        },
    }
}

/// Cancelling the orders in turn.
pub open spec fn cancel_all(s: StorageView, ids: Seq<u64>) -> Flow<StorageView>
    decreases ids.len(),
{
    if ids.len() == 0 {
        Flow::Go(s)
    } else {
        match cancel_step(s, ids[0]) {
            Flow::Go(s1) => cancel_all(s1, ids.drop_first()),
            Flow::Stop(st, e) => Flow::Stop(st, e),
            Flow::Panic => Flow::Panic,
        }
    }
}

/// Handling a batch of cancellations.
pub open spec fn cancellation_flow(s: StorageView, ids: Seq<u64>) -> Flow<Outcome> {
    match cancel_all(s, ids) {
        Flow::Go(s1) => Flow::Go((s1, seq![], None)),
        Flow::Stop(st, e) => Flow::Stop(st, e),
        Flow::Panic => Flow::Panic,
    }
}

fn cancel_order(storage: &mut Storage, id: u64) -> (r: Option<()>)
    requires
        old(storage).wf(),
    ensures
        final(storage).wf(),
        r is Some ==> cancel_step(old(storage)@, id) == Flow::Go(final(storage)@),
        r is None ==> cancel_step(old(storage)@, id) is Panic,
{
    let order = match get_order(storage, id) {
        Ok(order) => order,
        Err(_) => return Some(()),
    };
    let withheld_denom = if order.direction == PositionDirection::Long {
        order.price_denom.clone()
    } else {
        order.asset_denom.clone()
    };
    let withheld_delta = if order.direction == PositionDirection::Long {
        match order.remaining_quantity.checked_mul(order.price) {
            Some(d) => d,
            None => return None,
        }
    } else {
        order.remaining_quantity
    };
    let mut withheld_balance = get_balance(storage, order.account.clone(), withheld_denom.clone());
    withheld_balance.withheld = match withheld_balance.withheld.checked_sub(withheld_delta) {
        Some(w) => w,
        None => return None,
    };
    save_balance(storage, order.account.clone(), withheld_denom, &withheld_balance);
    delete_order(storage, id);
    Some(())
}

/// Cancels the orders of the given ids, releasing what they withheld.
pub fn process_bulk_order_cancellations(storage: &mut Storage, ids_to_cancel: Vec<u64>) -> (r: Option<
    Result<Response, ContractError>,
>)
    requires
        old(storage).wf(),
    ensures
        final(storage).wf(),
        attempted(cancellation_flow(old(storage)@, ids_to_cancel@), final(storage)@, r),
{
    let ghost s0 = storage@;
    let ghost ids = ids_to_cancel@;
    let mut i: usize = 0;
    assert(ids.skip(0) =~= ids);
    while i < ids_to_cancel.len()
        invariant
            storage.wf(),
            s0 == old(storage)@,
            ids == ids_to_cancel@,
            i <= ids.len(),
            cancel_all(s0, ids) == cancel_all(storage@, ids.skip(i as int)),
        decreases ids.len() - i,
    {
        let ghost before = storage@;
        assert(ids.skip(i as int)[0] == ids[i as int]);
        assert(ids.skip(i as int).drop_first() =~= ids.skip(i + 1));
        if cancel_order(storage, ids_to_cancel[i]).is_none() {
            assert(cancel_all(before, ids.skip(i as int)) is Panic);
            return None;
        }
        i = i + 1;
    }
    assert(ids.skip(i as int) =~= seq![]);
    let r = Response::new();
    assert(bank_msgs_view(r.messages@) =~= seq![]);
    Some(Ok(r))
}

// ---------------------------------------------------------------------------
// Liquidation
// ---------------------------------------------------------------------------

/// Handling liquidation requests: a spot market has no margin and no short
/// selling, so nothing is liquidated and the report is empty.
pub open spec fn liquidation_flow(s: StorageView) -> Flow<Outcome> {
    Flow::Go((s, seq![], Some(ResponseDataView::Liquidation(seq![], seq![]))))
}

/// Answers liquidation requests with an empty report.
pub fn process_bulk_liquidation() -> (r: Result<Response, ContractError>)
    ensures
        r matches Ok(resp) && resp.messages@.len() == 0 && (resp.data matches Some(
            ResponseData::Liquidation(l),
        ) && is_empty_liquidation(l)),
{
    let response = LiquidationResponse {
        successful_accounts: Vec::new(),
        liquidation_orders: Vec::new(),
    };
    Ok(Response { messages: Vec::new(), data: Some(ResponseData::Liquidation(response)) })
}

// ---------------------------------------------------------------------------
// Deposits and withdrawals
// ---------------------------------------------------------------------------

/// The decimal of a whole number of tokens, where it fits.
pub open spec fn whole_tokens(amount: u128) -> Option<Decimal> {
    match spec_from_atomics(amount, 0) {
        Some(a) => Some(Decimal { atomics: a }),
        None => None,
    }
}

/// Crediting one coin sent along by `account`.
pub open spec fn deposit_step(s: StorageView, account: Seq<char>, c: Coin) -> Flow<StorageView> {
    let bal = balance_of(s, account, c.denom@);
    match whole_tokens(c.amount) {
        Some(a) => match spec_add(bal.amount, a) {
            Some(n) => Flow::Go(with_balance(s, account, c.denom@, Balance { amount: n, ..bal })),
            None => Flow::Panic,
        },
        None => Flow::Panic,
    }
}

/// Crediting the coins in turn.
pub open spec fn deposit_all(s: StorageView, account: Seq<char>, coins: Seq<Coin>) -> Flow<
    StorageView,
>
    decreases coins.len(),
{
    if coins.len() == 0 {
        Flow::Go(s)
    } else {
        match deposit_step(s, account, coins[0]) {
            Flow::Go(s1) => deposit_all(s1, account, coins.drop_first()),
            Flow::Stop(st, e) => Flow::Stop(st, e),
            Flow::Panic => Flow::Panic,
        }
    }
}

/// Handling a deposit: the funds sent along are credited to the sender.
pub open spec fn deposit_flow(s: StorageView, sender: Seq<char>, funds: Seq<Coin>) -> Flow<Outcome> {
    match deposit_all(s, sender, funds) {
        Flow::Go(s1) => Flow::Go((s1, seq![], None)),
        Flow::Stop(st, e) => Flow::Stop(st, e),
        Flow::Panic => Flow::Panic,
    }
}

/// Taking one coin out of the balance of `account`; refused where the part of
/// the balance that is not withheld is smaller.
pub open spec fn withdraw_step(s: StorageView, account: Seq<char>, c: Coin) -> Flow<StorageView> {
    let bal = balance_of(s, account, c.denom@);
    match (whole_tokens(c.amount), spec_sub(bal.amount, bal.withheld)) {
        (Some(a), Some(free)) => {
            if free.atomics < a.atomics {
                Flow::Stop(s, ContractErrorView::InsufficientFund)
            } else {
                Flow::Go(
                    with_balance(
                        s,
                        account,
                        c.denom@,
                        Balance { amount: Decimal { atomics: (bal.amount.atomics - a.atomics) as u128 }, ..bal },
                    ),
                )
            }
        },
        _ => Flow::Panic,
    }
}

/// Taking the coins out in turn.
pub open spec fn withdraw_all(s: StorageView, account: Seq<char>, coins: Seq<Coin>) -> Flow<
    StorageView,
>
    decreases coins.len(),
{
    if coins.len() == 0 {
        Flow::Go(s)
    } else {
        match withdraw_step(s, account, coins[0]) {
            Flow::Go(s1) => withdraw_all(s1, account, coins.drop_first()),
            Flow::Stop(st, e) => Flow::Stop(st, e),
            Flow::Panic => Flow::Panic,
        }
    }
}

/// Handling a withdrawal: the coins are taken out of the sender's balances and
/// the bank is asked to send them all to the sender.
pub open spec fn withdraw_flow(s: StorageView, sender: Seq<char>, coins: Seq<Coin>) -> Flow<Outcome> {
    match withdraw_all(s, sender, coins) {
        Flow::Go(s1) => Flow::Go((s1, seq![(sender, coins_view(coins))], None)),
        Flow::Stop(st, e) => Flow::Stop(st, e),
        Flow::Panic => Flow::Panic,
    }
}

fn deposit_coin(storage: &mut Storage, account: &String, coin: &Coin) -> (r: Option<()>)
    requires
        old(storage).wf(),
    ensures
        final(storage).wf(),
        r is Some ==> deposit_step(old(storage)@, account@, *coin) == Flow::Go(final(storage)@),
        r is None ==> deposit_step(old(storage)@, account@, *coin) is Panic,
{
    let mut balance = get_balance(storage, account.clone(), coin.denom.clone());
    let amount = match Decimal::from_atomics(coin.amount, 0) {
        Ok(a) => a,
        Err(_) => return None,
    };
    balance.amount = match balance.amount.checked_add(amount) {
        Some(a) => a,
        None => return None,
    };
    save_balance(storage, account.clone(), coin.denom.clone(), &balance);
    Some(())
}

/// Credits the funds sent along to the sender's balances.
pub fn deposit(storage: &mut Storage, info: MessageInfo) -> (r: Option<Result<Response, ContractError>>)
    requires
        old(storage).wf(),
    ensures
        final(storage).wf(),
        attempted(deposit_flow(old(storage)@, info.sender@, info.funds@), final(storage)@, r),
{
    let account = info.sender;
    let ghost s0 = storage@;
    let ghost cs = info.funds@;
    let mut i: usize = 0;
    assert(cs.skip(0) =~= cs);
    while i < info.funds.len()
        invariant
            storage.wf(),
            s0 == old(storage)@,
            cs == info.funds@,
            account@ == info.sender@,
            i <= cs.len(),
            deposit_all(s0, account@, cs) == deposit_all(storage@, account@, cs.skip(i as int)),
        decreases cs.len() - i,
    {
        let ghost before = storage@;
        assert(cs.skip(i as int)[0] == cs[i as int]);
        assert(cs.skip(i as int).drop_first() =~= cs.skip(i + 1));
        if deposit_coin(storage, &account, &info.funds[i]).is_none() {
            assert(deposit_all(before, account@, cs.skip(i as int)) is Panic);
            return None;
        }
        i = i + 1;
    }
    assert(cs.skip(i as int) =~= seq![]);
    let r = Response::new();
    assert(bank_msgs_view(r.messages@) =~= seq![]);
    Some(Ok(r))
}

fn withdraw_coin(storage: &mut Storage, account: &String, coin: &Coin) -> (r: Option<
    Result<(), ContractError>,
>)
    requires
        old(storage).wf(),
    ensures
        final(storage).wf(),
        match withdraw_step(old(storage)@, account@, *coin) {
            Flow::Go(s) => r matches Some(Ok(_)) && final(storage)@ == s,
            Flow::Stop(st, e) => r matches Some(Err(err)) && err@ == e && final(storage)@ == st,
            Flow::Panic => r is None,
        },
{
    let mut balance = get_balance(storage, account.clone(), coin.denom.clone());
    let amount = match Decimal::from_atomics(coin.amount, 0) {
        Ok(a) => a,
        Err(_) => return None,
    };
    let available = match balance.amount.checked_sub(balance.withheld) {
        Some(a) => a,
        None => return None,
    };
    if available.atomics < amount.atomics {
        return Some(Err(ContractError::InsufficientFund()));
    }
    balance.amount = balance.amount.checked_sub(amount).unwrap();
    save_balance(storage, account.clone(), coin.denom.clone(), &balance);
    Some(Ok(()))
}

/// Takes the coins out of the sender's balances, refusing the whole withdrawal
/// where one of them exceeds what is not withheld, and asks the bank to send
/// them to the sender.
pub fn withdraw(storage: &mut Storage, info: MessageInfo, coins: Vec<Coin>) -> (r: Option<
    Result<Response, ContractError>,
>)
    requires
        old(storage).wf(),
    ensures
        final(storage).wf(),
        attempted(withdraw_flow(old(storage)@, info.sender@, coins@), final(storage)@, r),
{
    let account = info.sender;
    let ghost s0 = storage@;
    let ghost cs = coins@;
    let mut i: usize = 0;
    assert(cs.skip(0) =~= cs);
    while i < coins.len()
        invariant
            storage.wf(),
            s0 == old(storage)@,
            cs == coins@,
            account@ == info.sender@,
            i <= cs.len(),
            withdraw_all(s0, account@, cs) == withdraw_all(storage@, account@, cs.skip(i as int)),
        decreases cs.len() - i,
    {
        let ghost before = storage@;
        assert(cs.skip(i as int)[0] == cs[i as int]);
        assert(cs.skip(i as int).drop_first() =~= cs.skip(i + 1));
        match withdraw_coin(storage, &account, &coins[i]) {
            Some(Ok(())) => {},
            None => {
                assert(withdraw_all(before, account@, cs.skip(i as int)) is Panic);
                return None;
            },
            Some(Err(e)) => {
                assert(withdraw_all(before, account@, cs.skip(i as int)) matches Flow::Stop(st, x)
                    && x == e@ && st == storage@);
                return Some(Err(e));
            },
        }
        i = i + 1;
    }
    assert(cs.skip(i as int) =~= seq![]);
    let mut messages: Vec<BankMsg> = Vec::new();
    messages.push(BankMsg::Send { to_address: account, amount: coins });
    let r = Response { messages, data: None };
    assert(bank_msgs_view(r.messages@) =~= seq![(info.sender@, coins_view(cs))]);
    Some(Ok(r))
}

// ---------------------------------------------------------------------------
// Queries
// ---------------------------------------------------------------------------

/// Answers with the balance of `account` in `denom` (zero where none was stored).
pub fn get_balance_query(storage: &Storage, account: String, denom: String) -> (r: Result<
    QueryResponse,
    StdError,
>)
    requires
        storage.wf(),
    ensures
        r matches Ok(QueryResponse::Balance(resp)) && resp.balance == balance_of(
            storage@,
            account@,
            denom@,
        ),
{
    let balance = get_balance(storage, account, denom);
    Ok(QueryResponse::Balance(GetBalanceResponse { balance }))
}

/// Answers with the order of id `id`, or a not-found error.
pub fn get_order_query(storage: &Storage, id: u64) -> (r: Result<QueryResponse, StdError>)
    requires
        storage.wf(),
    ensures
        storage@.orders.contains_key(id) ==> (r matches Ok(QueryResponse::Order(resp))
            && resp.order == storage@.orders[id]),
        !storage@.orders.contains_key(id) ==> (r matches Err(e) && e@ == StdErrorView::NotFound(
            order_kind(id),
        )),
{
    let order = get_order(storage, id)?;
    Ok(QueryResponse::Order(GetOrderResponse { order }))
}

/// Answers a query; queries change nothing.
pub fn query(storage: &Storage, msg: QueryMsg) -> (r: Result<QueryResponse, StdError>)
    requires
        storage.wf(),
    ensures
        msg matches QueryMsg::GetBalance { account, denom } ==> (r matches Ok(
            QueryResponse::Balance(resp),
        ) && resp.balance == balance_of(storage@, account@, denom@)),
        msg matches QueryMsg::GetOrder { id } ==> (storage@.orders.contains_key(id) ==> (r matches Ok(
            QueryResponse::Order(resp),
        ) && resp.order == storage@.orders[id])),
        msg matches QueryMsg::GetOrder { id } ==> (!storage@.orders.contains_key(id) ==> (r matches Err(
            e,
        ) && e@ == StdErrorView::NotFound(order_kind(id)))),
{
    match msg {
        QueryMsg::GetBalance { account, denom } => get_balance_query(storage, account, denom),
        QueryMsg::GetOrder { id } => get_order_query(storage, id),
    }
}

// ---------------------------------------------------------------------------
// Entry points
// ---------------------------------------------------------------------------

/// The name under which the contract records itself.
pub const CONTRACT_NAME: &'static str = "crates.io:clearing-house";

/// The version of this contract.
pub const CONTRACT_VERSION: &'static str = "0.1.0";

/// The kind named in the error for a storage that records no contract version.
pub open spec fn contract_version_kind() -> Seq<char> {
    object_info_text("cw2::ContractVersion"@, contract_info_storage_key())
}

/// The refusal of an upgrade, if any, once both version texts were read: a text
/// that is not a version refuses with its parse error (the stored one first),
/// and a stored version that is not older than this one refuses the upgrade.
pub open spec fn upgrade_refusal(
    stored_error: Option<Seq<char>>,
    current_error: Option<Seq<char>>,
    stored_not_older: bool,
) -> Option<ContractErrorView> {
    if stored_error is Some {
        Some(ContractErrorView::SemVer(stored_error->0))
    } else if current_error is Some {
        Some(ContractErrorView::SemVer(current_error->0))
    } else if stored_not_older {
        Some(
            ContractErrorView::Std(
                StdErrorView::GenericErr("Cannot upgrade from a newer version"@),
            ),
        )
    } else {
        None
    }
}

pub open spec fn opt_text(s: Option<String>) -> Option<Seq<char>> {
    match s {
        Some(t) => Some(t@),
        None => None,
    }
}

/// Decides an upgrade from what reading the two versions gave: the parse error
/// of the stored version text, if any; that of this contract's version text,
/// if any; and whether the stored version is not older than this one.
pub fn upgrade_verdict(
    stored_error: Option<String>,
    current_error: Option<String>,
    stored_not_older: bool,
) -> (r: Result<(), ContractError>)
    ensures
        upgrade_refusal(opt_text(stored_error), opt_text(current_error), stored_not_older) is None
            ==> r is Ok,
        upgrade_refusal(opt_text(stored_error), opt_text(current_error), stored_not_older) matches Some(
            e,
        ) ==> (r matches Err(err) && err@ == e),
{
    if let Some(e) = stored_error {
        return Err(ContractError::SemVer(e));
    }
    if let Some(e) = current_error {
        return Err(ContractError::SemVer(e));
    }
    if stored_not_older {
        return Err(ContractError::Std(StdError::generic_err("Cannot upgrade from a newer version")));
    }
    Ok(())
}

/// Migrating: the storage must have been written by a contract of the same
/// name, with a version older than this one by the ordering of
/// `semver::Version`; the version is then updated.
pub open spec fn migrate_flow(s: StorageView) -> Flow<Outcome> {
    match s.version {
        None => Flow::Stop(
            s,
            ContractErrorView::Std(StdErrorView::NotFound(contract_version_kind())),
        ),
        Some((name, version)) => {
            if name != CONTRACT_NAME@ {
                Flow::Stop(
                    s,
                    ContractErrorView::Std(
                        StdErrorView::GenericErr("Can only upgrade from same type"@),
                    ),
                )
            } else if upgrade_refusal(
                semver_parse_error(version),
                semver_parse_error(CONTRACT_VERSION@),
                semver_not_older(version, CONTRACT_VERSION@),
            ) is Some {
                Flow::Stop(
                    s,
                    upgrade_refusal(
                        semver_parse_error(version),
                        semver_parse_error(CONTRACT_VERSION@),
                        semver_not_older(version, CONTRACT_VERSION@),
                    )->0,
                )
            } else {
                Flow::Go(
                    (
                        StorageView { version: Some((CONTRACT_NAME@, CONTRACT_VERSION@)), ..s },
                        seq![],
                        None,
                    ),
                )
            }
        },
    }
}

/// Instantiating records the contract's name and version.
pub open spec fn instantiate_flow(s: StorageView) -> Flow<Outcome> {
    Flow::Go((StorageView { version: Some((CONTRACT_NAME@, CONTRACT_VERSION@)), ..s }, seq![], None))
}

/// Upgrades a storage written by an older version of this contract.
pub fn migrate(storage: &mut Storage, _msg: MigrateMsg) -> (r: Result<Response, ContractError>)
    requires
        old(storage).wf(),
    ensures
        final(storage).wf(),
        handled(migrate_flow(old(storage)@), final(storage)@, r),
        old(storage)@.version == Some((CONTRACT_NAME@, CONTRACT_VERSION@)) ==> r is Err,
{
    let ver = match storage.contract_version() {
        Some(v) => v,
        None => {
            let key = contract_info_storage_key_bytes();
            let kind = object_info("cw2::ContractVersion", &key);
            return Err(ContractError::Std(StdError::NotFound { kind }));
        },
    };
    if ver.0 != String::from_str(CONTRACT_NAME) {
        return Err(ContractError::Std(StdError::generic_err("Can only upgrade from same type")));
    }
    let stored = parse_version(ver.1.as_str());
    let current = parse_version(CONTRACT_VERSION);
    let (stored_error, current_error, stored_not_older) = match (stored, current) {
        (Ok(a), Ok(b)) => (None, None, version_at_least(&a, &b)),
        (Err(e), Ok(_)) => (Some(e), None, false),
        (Ok(_), Err(e)) => (None, Some(e), false),
        (Err(e1), Err(e2)) => (Some(e1), Some(e2), false),
    };
    if let Err(e) = upgrade_verdict(stored_error, current_error, stored_not_older) {
        return Err(e);
    }
    storage.set_contract_version(String::from_str(CONTRACT_NAME), String::from_str(CONTRACT_VERSION));
    let r = Response::new();
    assert(bank_msgs_view(r.messages@) =~= seq![]);
    Ok(r)
}

/// Records the contract's name and version in a fresh storage.
pub fn instantiate(storage: &mut Storage, _info: MessageInfo, _msg: InstantiateMsg) -> (r: Result<
    Response,
    ContractError,
>)
    requires
        old(storage).wf(),
    ensures
        final(storage).wf(),
        handled(instantiate_flow(old(storage)@), final(storage)@, r),
{
    storage.set_contract_version(String::from_str(CONTRACT_NAME), String::from_str(CONTRACT_VERSION));
    let r = Response::new();
    assert(bank_msgs_view(r.messages@) =~= seq![]);
    Ok(r)
}

/// Handling a call of the exchange module.
pub open spec fn sudo_flow(s: StorageView, msg: SudoMsg, order_data: Seq<Option<OrderData>>) -> Flow<
    Outcome,
> {
    match msg {
        SudoMsg::Settlement { entries, .. } => settlement_flow(s, entries@),
        SudoMsg::BulkOrderPlacements { orders, deposits } => placement_flow(
            s,
            orders@,
            order_data,
            deposits@,
        ),
        SudoMsg::BulkOrderCancellations { ids } => cancellation_flow(s, ids@),
        SudoMsg::Liquidation { .. } => liquidation_flow(s),
    }
}

/// Handles a call of the exchange module, or gives `None` where the call
/// aborts (an overflow, or an amount that would go below zero). For a batch of
/// placements, `order_data[i]` is the `data` of its `i`-th placement read as
/// JSON, `None` where that text is not an `OrderData`.
pub fn try_sudo(storage: &mut Storage, msg: SudoMsg, order_data: Vec<Option<OrderData>>) -> (r: Option<
    Result<Response, ContractError>,
>)
    requires
        old(storage).wf(),
        msg matches SudoMsg::BulkOrderPlacements { orders, .. } ==> orders@.len()
            == order_data@.len(),
    ensures
        final(storage).wf(),
        attempted(sudo_flow(old(storage)@, msg, order_data@), final(storage)@, r),
{
    match msg {
        SudoMsg::Settlement { entries, .. } => process_settlements(storage, entries),
        SudoMsg::BulkOrderPlacements { orders, deposits } => process_bulk_order_placements(
            storage,
            orders,
            order_data,
            deposits,
        ),
        SudoMsg::BulkOrderCancellations { ids } => process_bulk_order_cancellations(storage, ids),
        SudoMsg::Liquidation { .. } => {
            let r = process_bulk_liquidation();
            assert(bank_msgs_view(r->Ok_0.messages@) =~= seq![]);
            let ghost l = r->Ok_0.data->Some_0->Liquidation_0;
            assert(l.successful_accounts@.map_values(|a: String| a@) =~= seq![]);
            assert(l.liquidation_orders@ =~= seq![]);
            Some(r)
        },
    }
}

/// Handles a call of the exchange module on which it does not abort. For a
/// batch of placements, `order_data[i]` is the `data` of its `i`-th placement
/// read as JSON, `None` where that text is not an `OrderData`.
pub fn sudo(storage: &mut Storage, msg: SudoMsg, order_data: Vec<Option<OrderData>>) -> (r: Result<
    Response,
    ContractError,
>)
    requires
        old(storage).wf(),
        msg matches SudoMsg::BulkOrderPlacements { orders, .. } ==> orders@.len()
            == order_data@.len(),
        !(sudo_flow(old(storage)@, msg, order_data@) is Panic),
    ensures
        final(storage).wf(),
        handled(sudo_flow(old(storage)@, msg, order_data@), final(storage)@, r),
{
    try_sudo(storage, msg, order_data).unwrap()
}

/// Handling a call of a user.
pub open spec fn execute_flow(s: StorageView, info: MessageInfo, msg: ExecuteMsg) -> Flow<Outcome> {
    match msg {
        ExecuteMsg::Deposit {  } => deposit_flow(s, info.sender@, info.funds@),
        ExecuteMsg::Withdraw { coins } => withdraw_flow(s, info.sender@, coins@),
    }
}

/// Handles a call of a user, a deposit of the funds sent along or a
/// withdrawal, or gives `None` where the call aborts.
pub fn try_execute(storage: &mut Storage, info: MessageInfo, msg: ExecuteMsg) -> (r: Option<
    Result<Response, ContractError>,
>)
    requires
        old(storage).wf(),
    ensures
        final(storage).wf(),
        attempted(execute_flow(old(storage)@, info, msg), final(storage)@, r),
{
    match msg {
        ExecuteMsg::Deposit {  } => deposit(storage, info),
        ExecuteMsg::Withdraw { coins } => withdraw(storage, info, coins),
    }
}

/// Handles a call of a user on which it does not abort: a deposit of the funds
/// sent along, or a withdrawal.
pub fn execute(storage: &mut Storage, info: MessageInfo, msg: ExecuteMsg) -> (r: Result<
    Response,
    ContractError,
>)
    requires
        old(storage).wf(),
        !(execute_flow(old(storage)@, info, msg) is Panic),
    ensures
        final(storage).wf(),
        handled(execute_flow(old(storage)@, info, msg), final(storage)@, r),
{
    try_execute(storage, info, msg).unwrap()
}

} // verus!
