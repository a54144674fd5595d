//! Properties of the contract that span several functions or every state.
use vstd::prelude::*;
use crate::balance::{balance_of, with_balance, zero_balance};
use crate::contract::{
    bulk_place,
    after_fill, cancel_all, cancel_step, credit_all, deposit_all, deposit_step, execute_flow,
    cancellation_flow, credit_step, deposit_flow, settlement_flow, instantiate_flow, migrate_flow, placement_flow, withdraw_flow, place_all, place_step, settle_all, settle_step, sudo_flow,
    whole_tokens, withdraw_all, withdraw_step, Flow,
};
use crate::decimal::{
    lemma_mul_commutes, lemma_pow10_18, product_atomics, spec_add, spec_mul, spec_sub, Decimal,
    DECIMAL_FRACTIONAL,
};
use crate::msg::{coin_view, coins_view, Coin, ExecuteMsg, MessageInfo, ResponseDataView, SudoMsg};
use crate::order::{with_order, without_order};
use crate::state::{placement_order, Balance, Order, DepositInfo, OrderData, OrderPlacement, PositionDirection, SettlementEntry};
use crate::storage::StorageView;

verus! {

/// No more of a balance is withheld than it holds.
pub open spec fn covered(b: Balance) -> bool {
    b.withheld.atomics <= b.amount.atomics
}

/// Every stored balance is covered.
pub open spec fn solvent(s: StorageView) -> bool {
    forall|k: (Seq<char>, Seq<char>)| s.balances.contains_key(k) ==> covered(#[trigger] s.balances[k])
}

// ---------------------------------------------------------------------------
// Reading back what was written
// ---------------------------------------------------------------------------

/// Reading a balance gives back what was last saved under its account and denom,
/// and saving a balance leaves the balances of other accounts and denoms as they were.
pub proof fn law_balance_read_after_write(
    s: StorageView,
    account: Seq<char>,
    denom: Seq<char>,
    balance: Balance,
    other_account: Seq<char>,
    other_denom: Seq<char>,
)
    ensures
        balance_of(with_balance(s, account, denom, balance), account, denom) == balance,
        (other_account, other_denom) != (account, denom) ==> balance_of(
            with_balance(s, account, denom, balance),
            other_account,
            other_denom,
        ) == balance_of(s, other_account, other_denom),
{
}

/// An account that never had a balance saved in a denom holds zero of it.
pub proof fn law_unsaved_balance_is_zero(s: StorageView, account: Seq<char>, denom: Seq<char>)
    requires
        !s.balances.contains_key((account, denom)),
    ensures
        balance_of(s, account, denom) == zero_balance(),
{
}

/// Reading an order gives back what was last saved under its id; after it is
/// deleted it is not found, while the account index still holds it.
pub proof fn law_order_read_after_write(s: StorageView, order: crate::state::Order)
    ensures
        with_order(s, order).orders.contains_key(order.id),
        with_order(s, order).orders[order.id] == order,
        with_order(s, order).account_orders[(order.account@, order.id)] == order,
        !without_order(with_order(s, order), order.id).orders.contains_key(order.id),
        without_order(with_order(s, order), order.id).account_orders[(order.account@, order.id)]
            == order,
{
}

// ---------------------------------------------------------------------------
// Every handled message keeps withheld amounts covered
// ---------------------------------------------------------------------------

proof fn lemma_balance_of_covered(s: StorageView, account: Seq<char>, denom: Seq<char>)
    requires
        solvent(s),
    ensures
        covered(balance_of(s, account, denom)),
{
    if s.balances.contains_key((account, denom)) {
        assert(covered(s.balances[(account, denom)]));
    }
}

proof fn lemma_with_balance_solvent(s: StorageView, account: Seq<char>, denom: Seq<char>, b: Balance)
    requires
        solvent(s),
        covered(b),
    ensures
        solvent(with_balance(s, account, denom, b)),
{
    let s1 = with_balance(s, account, denom, b);
    assert forall|k: (Seq<char>, Seq<char>)| s1.balances.contains_key(k) implies covered(
        #[trigger] s1.balances[k],
    ) by {
        if k != (account, denom) {
            assert(covered(s.balances[k]));
        }
    }
}

proof fn lemma_settle_step_solvent(s: StorageView, e: SettlementEntry)
    requires
        solvent(s),
    ensures
        settle_step(s, e) matches Flow::Go((s1, _)) ==> solvent(s1),
{
    if let Some(order) = s.orders.get(e.order_id) {
        let s1 = after_fill(s, e.order_id, order, e.quantity);
        assert(s1.balances == s.balances);
        lemma_balance_of_covered(s1, order.account@, order.withheld_denom()@);
        let bal = balance_of(s1, order.account@, order.withheld_denom()@);
        if let Flow::Go((s2, _)) = settle_step(s, e) {
            let delta = if order.direction == PositionDirection::Long {
                spec_mul(e.execution_cost_or_proceed, e.quantity)->0
            } else {
                e.quantity
            };
            let nb = Balance {
                amount: Decimal { atomics: (bal.amount.atomics - delta.atomics) as u128 },
                withheld: Decimal { atomics: (bal.withheld.atomics - delta.atomics) as u128 },
            };
            lemma_with_balance_solvent(s1, order.account@, order.withheld_denom()@, nb);
        }
    }
}

proof fn lemma_settle_all_solvent(s: StorageView, msgs: Seq<crate::msg::BankMsgView>, entries: Seq<SettlementEntry>)
    requires
        solvent(s),
    ensures
        settle_all(s, msgs, entries) matches Flow::Go((s1, _)) ==> solvent(s1),
    decreases entries.len(),
{
    if entries.len() > 0 {
        lemma_settle_step_solvent(s, entries[0]);
        if let Flow::Go((s1, m)) = settle_step(s, entries[0]) {
            lemma_settle_all_solvent(
                s1,
                match m {
                    Some(x) => msgs.push(x),
                    None => msgs,
                },
                entries.drop_first(),
            );
        }
    }
}

proof fn lemma_credit_all_solvent(s: StorageView, deposits: Seq<DepositInfo>)
    requires
        solvent(s),
    ensures
        credit_all(s, deposits) matches Flow::Go(s1) ==> solvent(s1),
    decreases deposits.len(),
{
    if deposits.len() > 0 {
        let d = deposits[0];
        let bal = balance_of(s, d.account@, d.denom@);
        lemma_balance_of_covered(s, d.account@, d.denom@);
        if let Some(a) = spec_add(bal.amount, d.amount) {
            lemma_with_balance_solvent(s, d.account@, d.denom@, Balance { amount: a, ..bal });
            lemma_credit_all_solvent(
                with_balance(s, d.account@, d.denom@, Balance { amount: a, ..bal }),
                deposits.drop_first(),
            );
        }
    }
}

proof fn lemma_place_step_solvent(
    s: StorageView,
    refused: Seq<(u64, Seq<char>)>,
    p: OrderPlacement,
    data: Option<OrderData>,
)
    requires
        solvent(s),
    ensures
        place_step(s, refused, p, data) matches Flow::Go((s1, _)) ==> solvent(s1),
{
    if let Some(d) = data {
        let order = placement_order(p, d.position_effect);
        let denom = order.withheld_denom()@;
        let bal = balance_of(s, order.account@, denom);
        lemma_balance_of_covered(s, order.account@, denom);
        if let Flow::Go((s1, _)) = place_step(s, refused, p, data) {
            let n = if order.direction == PositionDirection::Long {
                spec_mul(order.price, order.quantity)->0
            } else {
                order.quantity
            };
            if spec_sub(bal.amount, bal.withheld)->0.atomics >= n.atomics {
                let w = spec_add(bal.withheld, n)->0;
                lemma_with_balance_solvent(s, order.account@, denom, Balance { withheld: w, ..bal });
                assert(s1.balances == with_balance(s, order.account@, denom, Balance { withheld: w, ..bal }).balances);
            }
        }
    }
}

proof fn lemma_place_all_solvent(
    s: StorageView,
    refused: Seq<(u64, Seq<char>)>,
    placements: Seq<OrderPlacement>,
    data: Seq<Option<OrderData>>,
)
    requires
        solvent(s),
    ensures
        place_all(s, refused, placements, data) matches Flow::Go((s1, _)) ==> solvent(s1),
    decreases placements.len(),
{
    if placements.len() > 0 {
        lemma_place_step_solvent(s, refused, placements[0], data[0]);
        if let Flow::Go((s1, r1)) = place_step(s, refused, placements[0], data[0]) {
            lemma_place_all_solvent(s1, r1, placements.drop_first(), data.drop_first());
        }
    }
}

proof fn lemma_cancel_all_solvent(s: StorageView, ids: Seq<u64>)
    requires
        solvent(s),
    ensures
        cancel_all(s, ids) matches Flow::Go(s1) ==> solvent(s1),
    decreases ids.len(),
{
    if ids.len() > 0 {
        if let Some(o) = s.orders.get(ids[0]) {
            let denom = o.withheld_denom()@;
            let bal = balance_of(s, o.account@, denom);
            lemma_balance_of_covered(s, o.account@, denom);
            if let Flow::Go(s1) = cancel_step(s, ids[0]) {
                let delta = if o.direction == PositionDirection::Long {
                    spec_mul(o.remaining_quantity, o.price)->0
                } else {
                    o.remaining_quantity
                };
                let w = spec_sub(bal.withheld, delta)->0;
                lemma_with_balance_solvent(s, o.account@, denom, Balance { withheld: w, ..bal });
                assert(s1.balances == with_balance(s, o.account@, denom, Balance { withheld: w, ..bal }).balances);
                lemma_cancel_all_solvent(s1, ids.drop_first());
            }
        } else {
            lemma_cancel_all_solvent(s, ids.drop_first());
        }
    }
}

proof fn lemma_deposit_all_solvent(s: StorageView, account: Seq<char>, coins: Seq<Coin>)
    requires
        solvent(s),
    ensures
        deposit_all(s, account, coins) matches Flow::Go(s1) ==> solvent(s1),
    decreases coins.len(),
{
    if coins.len() > 0 {
        let c = coins[0];
        let bal = balance_of(s, account, c.denom@);
        lemma_balance_of_covered(s, account, c.denom@);
        if let Flow::Go(s1) = deposit_step(s, account, c) {
            let n = spec_add(bal.amount, whole_tokens(c.amount)->0)->0;
            lemma_with_balance_solvent(s, account, c.denom@, Balance { amount: n, ..bal });
            lemma_deposit_all_solvent(s1, account, coins.drop_first());
        }
    }
}

proof fn lemma_withdraw_all_solvent(s: StorageView, account: Seq<char>, coins: Seq<Coin>)
    requires
        solvent(s),
    ensures
        withdraw_all(s, account, coins) matches Flow::Go(s1) ==> solvent(s1),
    decreases coins.len(),
{
    if coins.len() > 0 {
        let c = coins[0];
        let bal = balance_of(s, account, c.denom@);
        lemma_balance_of_covered(s, account, c.denom@);
        if let Flow::Go(s1) = withdraw_step(s, account, c) {
            let a = whole_tokens(c.amount)->0;
            let nb = Balance { amount: Decimal { atomics: (bal.amount.atomics - a.atomics) as u128 }, ..bal };
            lemma_with_balance_solvent(s, account, c.denom@, nb);
            lemma_withdraw_all_solvent(s1, account, coins.drop_first());
        }
    }
}

/// A storage with no balance, as a contract starts with, has every balance covered.
pub proof fn law_empty_storage_is_covered(s: StorageView)
    requires
        s.balances == Map::<(Seq<char>, Seq<char>), Balance>::empty(),
    ensures
        solvent(s),
{
}

/// Whatever call of the exchange module succeeds, it leaves every balance with
/// no more withheld than it holds, where that held before.
pub proof fn law_sudo_keeps_balances_covered(
    s: StorageView,
    msg: SudoMsg,
    order_data: Seq<Option<OrderData>>,
)
    requires
        solvent(s),
    ensures
        sudo_flow(s, msg, order_data) matches Flow::Go((s1, _, _)) ==> solvent(s1),
{
    match msg {
        SudoMsg::Settlement { entries, .. } => lemma_settle_all_solvent(s, seq![], entries@),
        SudoMsg::BulkOrderPlacements { orders, deposits } => {
            lemma_credit_all_solvent(s, deposits@);
            if let Flow::Go(s1) = credit_all(s, deposits@) {
                lemma_place_all_solvent(s1, seq![], orders@, order_data);
            }
        },
        SudoMsg::BulkOrderCancellations { ids } => lemma_cancel_all_solvent(s, ids@),
        SudoMsg::Liquidation { .. } => {},
    }
}

/// Whatever deposit or withdrawal succeeds, it leaves every balance with no
/// more withheld than it holds, where that held before.
pub proof fn law_execute_keeps_balances_covered(s: StorageView, info: MessageInfo, msg: ExecuteMsg)
    requires
        solvent(s),
    ensures
        execute_flow(s, info, msg) matches Flow::Go((s1, _, _)) ==> solvent(s1),
{
    match msg {
        ExecuteMsg::Deposit {  } => lemma_deposit_all_solvent(s, info.sender@, info.funds@),
        ExecuteMsg::Withdraw { coins } => lemma_withdraw_all_solvent(s, info.sender@, coins@),
    }
}

/// Instantiating and migrating leave every balance as it was.
pub proof fn law_upgrades_keep_balances(s: StorageView)
    ensures
        instantiate_flow(s) matches Flow::Go((s1, _, _)) && s1.balances == s.balances,
        migrate_flow(s) matches Flow::Go((s1, _, _)) ==> s1.balances == s.balances,
{
}

// ---------------------------------------------------------------------------
// What one call undoes of another
// ---------------------------------------------------------------------------

/// Withdrawing a coin right after depositing it gives the coin back and
/// leaves the balance as it was before the deposit, provided no more of that
/// balance was withheld than it held.
pub proof fn law_withdraw_undoes_deposit(s: StorageView, account: Seq<char>, c: Coin)
    requires
        covered(balance_of(s, account, c.denom@)),
        !(deposit_flow(s, account, seq![c]) is Panic),
    ensures
        deposit_flow(s, account, seq![c]) matches Flow::Go((s1, msgs1, data1)) && msgs1.len() == 0
            && data1 is None && withdraw_flow(s1, account, seq![c]) == Flow::Go(
            (
                StorageView {
                    balances: s.balances.insert(
                        (account, c.denom@),
                        balance_of(s, account, c.denom@),
                    ),
                    ..s
                },
                seq![(account, seq![coin_view(c)])],
                None::<ResponseDataView>,
            ),
        ),
{
    let bal = balance_of(s, account, c.denom@);
    let a = whole_tokens(c.amount)->0;
    let n = spec_add(bal.amount, a)->0;
    let s1 = with_balance(s, account, c.denom@, Balance { amount: n, ..bal });
    assert(seq![c].drop_first() =~= Seq::<Coin>::empty());
    assert(seq![c][0] == c);
    assert(deposit_step(s, account, c) == Flow::Go(s1));
    assert(deposit_all(s1, account, Seq::<Coin>::empty()) == Flow::Go(s1));
    assert(deposit_all(s, account, seq![c]) == Flow::Go(s1));
    assert(deposit_flow(s, account, seq![c]) == Flow::Go((s1, Seq::<crate::msg::BankMsgView>::empty(), None::<ResponseDataView>)));
    assert(balance_of(s1, account, c.denom@) == Balance { amount: n, ..bal });
    let s2 = with_balance(
        s1,
        account,
        c.denom@,
        Balance { amount: Decimal { atomics: (n.atomics - a.atomics) as u128 }, ..Balance { amount: n, ..bal } },
    );
    assert(withdraw_step(s1, account, c) == Flow::Go(s2));
    assert(withdraw_all(s2, account, Seq::<Coin>::empty()) == Flow::Go(s2));
    assert(withdraw_all(s1, account, seq![c]) == Flow::Go(s2));
    assert(s2.balances =~= s.balances.insert((account, c.denom@), bal));
    assert(coins_view(seq![c]) =~= seq![coin_view(c)]);
}

/// Cancelling an order right after it was placed releases exactly what the
/// placement withheld: the balances are as before the placement, and the order
/// is gone from the book (the account index keeps it).
pub proof fn law_cancel_undoes_placement(s: StorageView, p: OrderPlacement, d: OrderData)
    requires
        placement_flow(s, seq![p], seq![Some(d)], seq![]) matches Flow::Go((_, _, data)) && data
            == Some(ResponseDataView::BulkOrderPlacements(seq![])),
    ensures
        placement_flow(s, seq![p], seq![Some(d)], seq![]) matches Flow::Go((s1, _, _))
            && cancellation_flow(s1, seq![p.id]) == Flow::Go(
            (
                StorageView {
                    balances: s.balances.insert(
                        (p.account@, placement_order(p, d.position_effect).withheld_denom()@),
                        balance_of(s, p.account@, placement_order(p, d.position_effect).withheld_denom()@),
                    ),
                    orders: s.orders.remove(p.id),
                    account_orders: s.account_orders.insert(
                        (p.account@, p.id),
                        placement_order(p, d.position_effect),
                    ),
                    ..s
                },
                Seq::<crate::msg::BankMsgView>::empty(),
                None::<ResponseDataView>,
            ),
        ),
{
    let order = placement_order(p, d.position_effect);
    let denom = order.withheld_denom()@;
    let bal = balance_of(s, order.account@, denom);
    assert(seq![p].drop_first() =~= Seq::<OrderPlacement>::empty());
    assert(seq![Some(d)].drop_first() =~= Seq::<Option<OrderData>>::empty());
    assert(credit_all(s, seq![]) == Flow::Go(s));
    let n = if order.direction == PositionDirection::Long {
        spec_mul(order.price, order.quantity)->0
    } else {
        order.quantity
    };
    lemma_mul_commutes(order.price, order.quantity);
    assert(seq![p][0] == p);
    assert(seq![Some(d)][0] == Some(d));
    assert(bulk_place(s, seq![p], seq![Some(d)], seq![]) == place_all(s, seq![], seq![p], seq![Some(d)]));
    let step = place_step(s, seq![], p, Some(d));
    assert(step matches Flow::Go((_, r)) && r.len() == 0) by {
        if let Flow::Go((s1, r1)) = step {
            assert(place_all(s1, r1, Seq::<OrderPlacement>::empty(), Seq::<Option<OrderData>>::empty()) == Flow::Go((s1, r1)));
        }
    }
    assert(spec_sub(bal.amount, bal.withheld) is Some);
    assert(spec_sub(bal.amount, bal.withheld)->0.atomics >= n.atomics);
    let w = spec_add(bal.withheld, n)->0;
    let s1 = with_order(with_balance(s, order.account@, denom, Balance { withheld: w, ..bal }), order);
    assert(place_step(s, seq![], p, Some(d)) == Flow::Go((s1, Seq::<(u64, Seq<char>)>::empty())));
    assert(place_all(s, seq![], seq![p], seq![Some(d)]) == Flow::Go((s1, Seq::<(u64, Seq<char>)>::empty())));
    assert(s1.orders.get(p.id) == Some(order));
    assert(balance_of(s1, order.account@, denom) == Balance { withheld: w, ..bal });
    let s2 = without_order(with_balance(s1, order.account@, denom, bal), p.id);
    assert(cancel_step(s1, p.id) == Flow::Go(s2));
    assert(seq![p.id].drop_first() =~= Seq::<u64>::empty());
    assert(seq![p.id][0] == p.id);
    assert(cancel_all(s2, Seq::<u64>::empty()) == Flow::Go(s2));
    assert(cancel_all(s1, seq![p.id]) == Flow::Go(s2));
    assert(s2.balances =~= s.balances.insert((p.account@, denom), bal));
    assert(s2.orders =~= s.orders.remove(p.id));
}

// ---------------------------------------------------------------------------
// Settlements only ever fill orders
// ---------------------------------------------------------------------------

/// Every stored order sits under its own id, with something left of it and no
/// more left than was ordered.
pub open spec fn orders_in_shape(s: StorageView) -> bool {
    forall|k: u64|
        s.orders.contains_key(k) ==> (#[trigger] s.orders[k]).id == k && 0
            < s.orders[k].remaining_quantity.atomics <= s.orders[k].quantity.atomics
}

/// The orders of `s1` are among those of `s`, each the same but for what
/// remains of it.
pub open spec fn only_fills(s: StorageView, s1: StorageView) -> bool {
    forall|k: u64|
        s1.orders.contains_key(k) ==> s.orders.contains_key(k) && #[trigger] s1.orders[k] == (Order {
            remaining_quantity: s1.orders[k].remaining_quantity,
            ..s.orders[k]
        })
}

proof fn lemma_settle_step_fills(s: StorageView, e: SettlementEntry)
    requires
        orders_in_shape(s),
    ensures
        settle_step(s, e) matches Flow::Go((s2, _)) ==> orders_in_shape(s2) && only_fills(s, s2),
{
    if let Some(order) = s.orders.get(e.order_id) {
        if let Flow::Go((s2, _)) = settle_step(s, e) {
            let s1 = after_fill(s, e.order_id, order, e.quantity);
            assert(s2.orders == s1.orders);
            assert(order.id == e.order_id);
            assert forall|k: u64| s2.orders.contains_key(k) implies (#[trigger] s2.orders[k]).id == k
                && 0 < s2.orders[k].remaining_quantity.atomics <= s2.orders[k].quantity.atomics
                && s.orders.contains_key(k) && s2.orders[k] == (Order {
                remaining_quantity: s2.orders[k].remaining_quantity,
                ..s.orders[k]
            }) by {
                assert(s.orders.contains_key(k));
            }
        }
    }
}

proof fn lemma_settle_all_fills(
    s: StorageView,
    msgs: Seq<crate::msg::BankMsgView>,
    entries: Seq<SettlementEntry>,
)
    requires
        orders_in_shape(s),
    ensures
        settle_all(s, msgs, entries) matches Flow::Go((s2, _)) ==> orders_in_shape(s2) && only_fills(
            s,
            s2,
        ),
    decreases entries.len(),
{
    if entries.len() == 0 {
        assert(only_fills(s, s));
    } else {
        lemma_settle_step_fills(s, entries[0]);
        if let Flow::Go((s1, m)) = settle_step(s, entries[0]) {
            let msgs1 = match m {
                Some(x) => msgs.push(x),
                None => msgs,
            };
            lemma_settle_all_fills(s1, msgs1, entries.drop_first());
            if let Flow::Go((s2, _)) = settle_all(s1, msgs1, entries.drop_first()) {
                assert forall|k: u64| s2.orders.contains_key(k) implies s.orders.contains_key(k)
                    && #[trigger] s2.orders[k] == (Order {
                    remaining_quantity: s2.orders[k].remaining_quantity,
                    ..s.orders[k]
                }) by {
                    assert(s1.orders.contains_key(k));
                    assert(s1.orders[k] == (Order {
                        remaining_quantity: s1.orders[k].remaining_quantity,
                        ..s.orders[k]
                    }));
                }
            }
        }
    }
}

/// A batch of settlements that goes through adds no order and changes no
/// stored order but in what remains of it; where every stored order sat under
/// its own id with `0 < remaining_quantity <= quantity`, that still holds.
pub proof fn law_settlements_only_fill_orders(s: StorageView, entries: Seq<SettlementEntry>)
    requires
        orders_in_shape(s),
    ensures
        settlement_flow(s, entries) matches Flow::Go((s1, _, _)) ==> orders_in_shape(s1)
            && only_fills(s, s1),
{
    lemma_settle_all_fills(s, seq![], entries);
}

// ---------------------------------------------------------------------------
// Deposits and withdrawals move exactly the coins named
// ---------------------------------------------------------------------------

/// The atomics of all the coins of denom `d` among `coins`, each coin a whole
/// number of tokens.
pub open spec fn coin_total(coins: Seq<Coin>, d: Seq<char>) -> int
    decreases coins.len(),
{
    if coins.len() == 0 {
        0
    } else {
        (if coins[0].denom@ == d {
            coins[0].amount * DECIMAL_FRACTIONAL
        } else {
            0
        }) + coin_total(coins.drop_first(), d)
    }
}

/// What of a balance is not withheld.
pub open spec fn free_part(b: Balance) -> int {
    b.amount.atomics - b.withheld.atomics
}

proof fn lemma_whole_tokens(amount: u128)
    ensures
        whole_tokens(amount) matches Some(a) ==> a.atomics == amount * DECIMAL_FRACTIONAL,
{
    lemma_pow10_18();
}

proof fn lemma_deposit_all_credits(s: StorageView, account: Seq<char>, coins: Seq<Coin>)
    ensures
        deposit_all(s, account, coins) matches Flow::Go(s1) ==> {
            &&& s1.orders == s.orders
            &&& s1.account_orders == s.account_orders
            &&& s1.version == s.version
            &&& forall|d: Seq<char>|
                #![trigger balance_of(s1, account, d)]
                balance_of(s1, account, d).amount.atomics == balance_of(s, account, d).amount.atomics
                    + coin_total(coins, d) && balance_of(s1, account, d).withheld == balance_of(
                    s,
                    account,
                    d,
                ).withheld
            &&& forall|a: Seq<char>, d: Seq<char>|
                #![trigger balance_of(s1, a, d)]
                a != account ==> balance_of(s1, a, d) == balance_of(s, a, d)
        },
    decreases coins.len(),
{
    if coins.len() > 0 {
        let c = coins[0];
        lemma_whole_tokens(c.amount);
        if let Flow::Go(s1) = deposit_step(s, account, c) {
            let rest = coins.drop_first();
            lemma_deposit_all_credits(s1, account, rest);
            if let Flow::Go(s2) = deposit_all(s1, account, rest) {
                assert forall|d: Seq<char>| #![trigger balance_of(s2, account, d)]
                    balance_of(s2, account, d).amount.atomics == balance_of(s, account, d).amount.atomics
                        + coin_total(coins, d) && balance_of(s2, account, d).withheld == balance_of(
                        s,
                        account,
                        d,
                    ).withheld by {
                    assert(balance_of(s2, account, d) == balance_of(s2, account, d));
                    assert(balance_of(s1, account, d) == balance_of(s1, account, d));
                }
                assert forall|a: Seq<char>, d: Seq<char>| #![trigger balance_of(s2, a, d)]
                    a != account implies balance_of(s2, a, d) == balance_of(s, a, d) by {
                    assert(balance_of(s1, a, d) == balance_of(s1, a, d));
                }
            }
        }
    }
}

/// A deposit that goes through raises the sender's balance of each denom by
/// exactly the coins of that denom sent along, touches no withheld part, no
/// other account and no order, and sends nothing.
pub proof fn law_deposit_credits_each_denom(s: StorageView, sender: Seq<char>, funds: Seq<Coin>)
    ensures
        deposit_flow(s, sender, funds) matches Flow::Go((s1, msgs, data)) ==> {
            &&& msgs.len() == 0
            &&& data is None
            &&& s1.orders == s.orders
            &&& forall|d: Seq<char>|
                #![trigger balance_of(s1, sender, d)]
                balance_of(s1, sender, d).amount.atomics == balance_of(s, sender, d).amount.atomics
                    + coin_total(funds, d) && balance_of(s1, sender, d).withheld == balance_of(
                    s,
                    sender,
                    d,
                ).withheld
            &&& forall|a: Seq<char>, d: Seq<char>|
                #![trigger balance_of(s1, a, d)]
                a != sender ==> balance_of(s1, a, d) == balance_of(s, a, d)
        },
{
    lemma_deposit_all_credits(s, sender, funds);
}

proof fn lemma_withdraw_all_debits(s: StorageView, account: Seq<char>, coins: Seq<Coin>)
    ensures
        withdraw_all(s, account, coins) matches Flow::Go(s1) ==> s1.orders == s.orders
            && s1.account_orders == s.account_orders && s1.version == s.version,
        withdraw_all(s, account, coins) matches Flow::Go(s1) ==> forall|d: Seq<char>|
            #![trigger balance_of(s1, account, d)]
            #![trigger coin_total(coins, d)]
            coin_total(coins, d) == 0 || coin_total(coins, d) <= free_part(balance_of(s, account, d)),
        withdraw_all(s, account, coins) matches Flow::Go(s1) ==> forall|d: Seq<char>|
            #![trigger balance_of(s1, account, d)]
            balance_of(s1, account, d).amount.atomics == balance_of(s, account, d).amount.atomics
                - coin_total(coins, d),
        withdraw_all(s, account, coins) matches Flow::Go(s1) ==> forall|d: Seq<char>|
            #![trigger balance_of(s1, account, d)]
            balance_of(s1, account, d).withheld == balance_of(s, account, d).withheld,
        withdraw_all(s, account, coins) matches Flow::Go(s1) ==> forall|a: Seq<char>, d: Seq<char>|
            #![trigger balance_of(s1, a, d)]
            a != account ==> balance_of(s1, a, d) == balance_of(s, a, d),
    decreases coins.len(),
{
    if coins.len() > 0 {
        let c = coins[0];
        lemma_whole_tokens(c.amount);
        if let Flow::Go(s1) = withdraw_step(s, account, c) {
            let rest = coins.drop_first();
            lemma_withdraw_all_debits(s1, account, rest);
            if let Flow::Go(s2) = withdraw_all(s1, account, rest) {
                assert forall|d: Seq<char>|
                    #![trigger balance_of(s2, account, d)]
                    #![trigger coin_total(coins, d)]
                    (coin_total(coins, d) == 0 || coin_total(coins, d) <= free_part(balance_of(s, account, d)))
                        && balance_of(s2, account, d).amount.atomics == balance_of(s, account, d).amount.atomics
                        - coin_total(coins, d) && balance_of(s2, account, d).withheld == balance_of(
                        s,
                        account,
                        d,
                    ).withheld by {
                    let b0 = balance_of(s, account, d);
                    let b1 = balance_of(s1, account, d);
                    let b2 = balance_of(s2, account, d);
                    let rest_total = coin_total(rest, d);
                    assert(coin_total(coins, d) == (if c.denom@ == d {
                        c.amount * DECIMAL_FRACTIONAL
                    } else {
                        0
                    }) + rest_total);
                    if c.denom@ == d {
                        let x = whole_tokens(c.amount)->0;
                        assert(x.atomics == c.amount * DECIMAL_FRACTIONAL);
                        assert(spec_sub(b0.amount, b0.withheld) is Some);
                        assert(x.atomics <= b0.amount.atomics - b0.withheld.atomics);
                        assert(b1.amount.atomics == b0.amount.atomics - x.atomics);
                        assert(b1.withheld == b0.withheld);
                    } else {
                        assert(b1 == b0);
                    }
                    assert(rest_total == 0 || rest_total <= free_part(b1));
                    assert(b2.amount.atomics == b1.amount.atomics - rest_total);
                }
                assert forall|a: Seq<char>, d: Seq<char>| #![trigger balance_of(s2, a, d)]
                    a != account implies balance_of(s2, a, d) == balance_of(s, a, d) by {
                    assert(balance_of(s1, a, d) == balance_of(s1, a, d));
                }
                assert(withdraw_all(s, account, coins) == Flow::Go(s2));
                assert(s2.orders == s.orders);
                assert(s2.account_orders == s.account_orders);
                assert(s2.version == s.version);
            }
        }
    } else {
        assert forall|d: Seq<char>| coin_total(coins, d) == 0 by {}
    }
}

/// A withdrawal that goes through takes from the sender's balance of each
/// denom exactly the coins of that denom asked for, never more than was free
/// of it, touches no withheld part, no other account and no order, and sends
/// every coin asked for to the sender in one transfer. So a withdrawal asking
/// for more of a denom than is free of it is never carried out.
pub proof fn law_withdraw_debits_each_denom(s: StorageView, sender: Seq<char>, coins: Seq<Coin>)
    ensures
        withdraw_flow(s, sender, coins) matches Flow::Go((s1, msgs, data)) ==> {
            &&& msgs == seq![(sender, coins_view(coins))]
            &&& data is None
            &&& s1.orders == s.orders
            &&& forall|d: Seq<char>|
                #![trigger balance_of(s1, sender, d)]
                (coin_total(coins, d) == 0 || coin_total(coins, d) <= free_part(balance_of(s, sender, d)))
                    && balance_of(s1, sender, d).amount.atomics == balance_of(s, sender, d).amount.atomics
                    - coin_total(coins, d) && balance_of(s1, sender, d).withheld == balance_of(
                    s,
                    sender,
                    d,
                ).withheld
            &&& forall|a: Seq<char>, d: Seq<char>|
                #![trigger balance_of(s1, a, d)]
                a != sender ==> balance_of(s1, a, d) == balance_of(s, a, d)
        },
{
    lemma_withdraw_all_debits(s, sender, coins);
}

// ---------------------------------------------------------------------------
// What a fill pays and costs, and what a cancellation releases
// ---------------------------------------------------------------------------

/// A settled fill of `quantity` at `execution_cost_or_proceed` pays the account
/// the asset (the quantity) for a buy, and the price denom (the quantity times
/// the execution price) for a sell, in whole units, in one transfer; and it
/// takes its cost (the quantity times the execution price of the price denom for
/// a buy, the quantity of the asset denom for a sell) out of both the amount and
/// the withheld part of that denom. No fill exceeds what remains of its order.
pub proof fn law_settlement_pays_proceeds(s: StorageView, e: SettlementEntry)
    requires
        s.orders.contains_key(e.order_id),
    ensures
        settlement_flow(s, seq![e]) matches Flow::Go((s1, msgs, data)) ==> {
            let o = s.orders[e.order_id];
            let q = e.quantity.atomics;
            let p = e.execution_cost_or_proceed.atomics;
            let buy = o.direction == PositionDirection::Long;
            let cost_denom = if buy { o.price_denom@ } else { o.asset_denom@ };
            let cost: int = if buy { product_atomics(p, q) as int } else { q as int };
            let paid_denom = if buy { o.asset_denom@ } else { o.price_denom@ };
            let paid: int = if buy { q as int } else { product_atomics(q, p) as int };
            &&& q <= o.remaining_quantity.atomics
            &&& o.id == e.order_id ==> if q == o.remaining_quantity.atomics {
                !s1.orders.contains_key(e.order_id)
            } else {
                s1.orders.contains_key(e.order_id) && s1.orders[e.order_id].remaining_quantity.atomics
                    == o.remaining_quantity.atomics - q
            }
            &&& data is None
            &&& msgs.len() == 1
            &&& msgs[0].0 == o.account@
            &&& msgs[0].1.len() == 1
            &&& msgs[0].1[0].0 == paid_denom
            &&& msgs[0].1[0].1 == paid / (DECIMAL_FRACTIONAL as int)
            &&& balance_of(s1, o.account@, cost_denom).amount.atomics == balance_of(
                s,
                o.account@,
                cost_denom,
            ).amount.atomics - cost
            &&& balance_of(s1, o.account@, cost_denom).withheld.atomics == balance_of(
                s,
                o.account@,
                cost_denom,
            ).withheld.atomics - cost
        },
{
    let o = s.orders[e.order_id];
    assert(seq![e][0] == e);
    assert(seq![e].drop_first() =~= Seq::<SettlementEntry>::empty());
    if let Flow::Go((s1, m)) = settle_step(s, e) {
        let msgs0 = Seq::<crate::msg::BankMsgView>::empty();
        let msgs1 = match m {
            Some(x) => msgs0.push(x),
            None => msgs0,
        };
        assert(settle_all(s1, msgs1, Seq::<SettlementEntry>::empty()) == Flow::Go((s1, msgs1)));
        let s_fill = after_fill(s, e.order_id, o, e.quantity);
        assert(s_fill.balances == s.balances);
        assert(balance_of(s_fill, o.account@, o.withheld_denom()@) == balance_of(
            s,
            o.account@,
            o.withheld_denom()@,
        ));
    }
}

/// Cancelling an order removes it and releases from the withheld part of its
/// account's withheld denom exactly what remains of it: the remaining quantity
/// times the price for a buy, the remaining quantity for a sell. The amount and
/// every other balance stay as they were, and nothing is sent.
pub proof fn law_cancel_releases_what_remains(s: StorageView, id: u64)
    requires
        s.orders.contains_key(id),
    ensures
        cancellation_flow(s, seq![id]) matches Flow::Go((s1, msgs, data)) ==> {
            let o = s.orders[id];
            let buy = o.direction == PositionDirection::Long;
            let denom = if buy { o.price_denom@ } else { o.asset_denom@ };
            let release: int = if buy {
                product_atomics(o.remaining_quantity.atomics, o.price.atomics) as int
            } else {
                o.remaining_quantity.atomics as int
            };
            &&& !s1.orders.contains_key(id)
            &&& msgs.len() == 0
            &&& data is None
            &&& balance_of(s1, o.account@, denom).withheld.atomics == balance_of(
                s,
                o.account@,
                denom,
            ).withheld.atomics - release
            &&& balance_of(s1, o.account@, denom).amount == balance_of(s, o.account@, denom).amount
            &&& forall|a: Seq<char>, d: Seq<char>|
                #![trigger balance_of(s1, a, d)]
                (a, d) != (o.account@, denom) ==> balance_of(s1, a, d) == balance_of(s, a, d)
        },
{
    assert(seq![id][0] == id);
    assert(seq![id].drop_first() =~= Seq::<u64>::empty());
    if let Flow::Go(s1) = cancel_step(s, id) {
        assert(cancel_all(s1, Seq::<u64>::empty()) == Flow::Go(s1));
        assert(cancel_all(s, seq![id]) == Flow::Go(s1));
    }
}

// ---------------------------------------------------------------------------
// Every placement of a batch is answered
// ---------------------------------------------------------------------------

/// The placement at `i` is listed as refused among the entries of `r` from `from` on.
pub open spec fn listed_from(r: Seq<(u64, Seq<char>)>, from: int, p: OrderPlacement) -> bool {
    exists|j: int| from <= j < r.len() && #[trigger] r[j] == (p.id, "Insufficient balance"@)
}

proof fn lemma_place_all_answers_each(
    s: StorageView,
    refused: Seq<(u64, Seq<char>)>,
    ps: Seq<OrderPlacement>,
    ds: Seq<Option<OrderData>>,
)
    requires
        ps.len() == ds.len(),
    ensures
        place_all(s, refused, ps, ds) matches Flow::Go((s1, r1)) ==> {
            &&& refused.len() <= r1.len()
            &&& r1.subrange(0, refused.len() as int) == refused
            &&& forall|k: u64| #[trigger] s.orders.contains_key(k) ==> s1.orders.contains_key(k)
            &&& forall|k: (Seq<char>, u64)|
                #[trigger] s.account_orders.contains_key(k) ==> s1.account_orders.contains_key(k)
            &&& forall|i: int|
                0 <= i < ps.len() ==> listed_from(r1, refused.len() as int, #[trigger] ps[i]) || (
                s1.orders.contains_key(ps[i].id) && s1.account_orders.contains_key(
                    (ps[i].account@, ps[i].id),
                ))
            &&& forall|j: int|
                refused.len() <= j < r1.len() ==> exists|i: int|
                    0 <= i < ps.len() && #[trigger] r1[j] == (
                        (#[trigger] ps[i]).id,
                        "Insufficient balance"@,
                    )
        },
    decreases ps.len(),
{
    if ps.len() == 0 {
        assert(refused.subrange(0, refused.len() as int) =~= refused);
    } else {
        let p = ps[0];
        if let Flow::Go((s1, r1)) = place_step(s, refused, p, ds[0]) {
            let rest = ps.drop_first();
            lemma_place_all_answers_each(s1, r1, rest, ds.drop_first());
            if let Flow::Go((s2, r2)) = place_all(s1, r1, rest, ds.drop_first()) {
                let listed = r1.len() > refused.len();
                if listed {
                    assert(r1 == refused.push((p.id, "Insufficient balance"@)));
                } else {
                    assert(r1 == refused);
                    assert(s1.orders.contains_key(p.id));
                    assert(s1.account_orders.contains_key((p.account@, p.id)));
                }
                assert forall|k: u64| #[trigger] s.orders.contains_key(k) implies s2.orders.contains_key(
                    k,
                ) by {
                    assert(s1.orders.contains_key(k));
                }
                assert forall|k: (Seq<char>, u64)| #[trigger]
                    s.account_orders.contains_key(k) implies s2.account_orders.contains_key(k) by {
                    assert(s1.account_orders.contains_key(k));
                }
                assert(r2.subrange(0, r1.len() as int) == r1);
                assert(r2.subrange(0, refused.len() as int) =~= refused) by {
                    assert forall|k: int| 0 <= k < refused.len() implies r2[k] == refused[k] by {
                        assert(r2.subrange(0, r1.len() as int)[k] == r1[k]);
                    }
                }
                assert forall|i: int|
                    0 <= i < ps.len() implies listed_from(r2, refused.len() as int, #[trigger] ps[i])
                    || (s2.orders.contains_key(ps[i].id) && s2.account_orders.contains_key(
                        (ps[i].account@, ps[i].id),
                    )) by {
                    if i == 0 {
                        if listed {
                            let j = refused.len() as int;
                            assert(r2.subrange(0, r1.len() as int)[j] == r1[j]);
                            assert(r2[j] == (p.id, "Insufficient balance"@));
                        }
                    } else {
                        assert(ps[i] == rest[i - 1]);
                        if listed_from(r2, r1.len() as int, rest[i - 1]) {
                            let j = choose|j: int|
                                r1.len() <= j < r2.len() && #[trigger] r2[j] == (
                                    rest[i - 1].id,
                                    "Insufficient balance"@,
                                );
                            assert(r2[j] == (ps[i].id, "Insufficient balance"@));
                        }
                    }
                }
                assert forall|j: int|
                    refused.len() <= j < r2.len() implies exists|i: int|
                        0 <= i < ps.len() && #[trigger] r2[j] == (
                            (#[trigger] ps[i]).id,
                            "Insufficient balance"@,
                        ) by {
                    if j < r1.len() {
                        assert(r2.subrange(0, r1.len() as int)[j] == r1[j]);
                        assert(r2[j] == (ps[0].id, "Insufficient balance"@));
                    } else {
                        let i0 = choose|i0: int|
                            0 <= i0 < rest.len() && #[trigger] r2[j] == (
                                (#[trigger] rest[i0]).id,
                                "Insufficient balance"@,
                            );
                        assert(rest[i0] == ps[i0 + 1]);
                    }
                }
            }
        }
    }
}

/// In a batch of placements that goes through, every placement is answered:
/// each is either listed as refused for an insufficient balance or stored,
/// under its id and under its account and id, whatever was refused before it;
/// and every entry listed as refused is one of the batch's placements.
pub proof fn law_every_placement_is_answered(
    s: StorageView,
    placements: Seq<OrderPlacement>,
    data: Seq<Option<OrderData>>,
    deposits: Seq<DepositInfo>,
)
    requires
        placements.len() == data.len(),
    ensures
        placement_flow(s, placements, data, deposits) matches Flow::Go((s1, msgs, rd)) ==> {
            &&& msgs.len() == 0
            &&& rd matches Some(ResponseDataView::BulkOrderPlacements(refused)) && {
                &&& forall|i: int|
                    0 <= i < placements.len() ==> listed_from(refused, 0, #[trigger] placements[i]) || (
                    s1.orders.contains_key(placements[i].id) && s1.account_orders.contains_key(
                        (placements[i].account@, placements[i].id),
                    ))
                &&& forall|j: int|
                    0 <= j < refused.len() ==> exists|i: int|
                        0 <= i < placements.len() && #[trigger] refused[j] == (
                            (#[trigger] placements[i]).id,
                            "Insufficient balance"@,
                        )
            }
        },
{
    if let Flow::Go(s0) = credit_all(s, deposits) {
        lemma_place_all_answers_each(s0, seq![], placements, data);
    }
}

// ---------------------------------------------------------------------------
// One placement, and the deposits of a batch
// ---------------------------------------------------------------------------

/// A single placement is refused exactly when what is free of its account's
/// balance of the denom it needs (the price denom for a buy, code 0; the asset
/// denom otherwise) is less than its nominal (price times quantity for a buy,
/// the quantity otherwise); a refused placement changes nothing. An accepted
/// one withholds exactly its nominal, leaves the amount as it was, and stores
/// an order with the placement's id, account, price and quantity, nothing of
/// it filled yet.
pub proof fn law_single_placement(s: StorageView, p: OrderPlacement, d: OrderData)
    ensures
        placement_flow(s, seq![p], seq![Some(d)], seq![]) matches Flow::Go((s1, msgs, rd)) ==> {
            let buy = p.position_direction == 0;
            let denom = if buy { p.price_denom@ } else { p.asset_denom@ };
            let nominal: int = if buy {
                product_atomics(p.price.atomics, p.quantity.atomics) as int
            } else {
                p.quantity.atomics as int
            };
            let b0 = balance_of(s, p.account@, denom);
            let b1 = balance_of(s1, p.account@, denom);
            &&& msgs.len() == 0
            &&& b1.amount == b0.amount
            &&& if free_part(b0) < nominal {
                &&& rd == Some(
                    ResponseDataView::BulkOrderPlacements(seq![(p.id, "Insufficient balance"@)]),
                )
                &&& s1 == s
            } else {
                &&& rd == Some(ResponseDataView::BulkOrderPlacements(seq![]))
                &&& b1.withheld.atomics == b0.withheld.atomics + nominal
                &&& s1.orders.contains_key(p.id)
                &&& s1.orders[p.id].id == p.id
                &&& s1.orders[p.id].account == p.account
                &&& s1.orders[p.id].price == p.price
                &&& s1.orders[p.id].quantity == p.quantity
                &&& s1.orders[p.id].remaining_quantity == p.quantity
            }
        },
{
    assert(seq![p][0] == p);
    assert(seq![Some(d)][0] == Some(d));
    assert(seq![p].drop_first() =~= Seq::<OrderPlacement>::empty());
    assert(seq![Some(d)].drop_first() =~= Seq::<Option<OrderData>>::empty());
    assert(credit_all(s, seq![]) == Flow::Go(s));
    if let Flow::Go((s1, r1)) = place_step(s, seq![], p, Some(d)) {
        assert(place_all(s1, r1, Seq::<OrderPlacement>::empty(), Seq::<Option<OrderData>>::empty())
            == Flow::Go((s1, r1)));
        assert(Seq::<(u64, Seq<char>)>::empty().push((p.id, "Insufficient balance"@)) =~= seq![
            (p.id, "Insufficient balance"@),
        ]);
    }
}

/// The total of the deposits of `ds` for `account` in `denom`.
pub open spec fn deposit_total(ds: Seq<DepositInfo>, account: Seq<char>, denom: Seq<char>) -> int
    decreases ds.len(),
{
    if ds.len() == 0 {
        0
    } else {
        (if ds[0].account@ == account && ds[0].denom@ == denom {
            ds[0].amount.atomics as int
        } else {
            0
        }) + deposit_total(ds.drop_first(), account, denom)
    }
}

proof fn lemma_credit_all_credits(s: StorageView, ds: Seq<DepositInfo>)
    ensures
        credit_all(s, ds) matches Flow::Go(s1) ==> {
            &&& s1.orders == s.orders
            &&& forall|a: Seq<char>, d: Seq<char>|
                #![trigger balance_of(s1, a, d)]
                #![trigger deposit_total(ds, a, d)]
                balance_of(s1, a, d).amount.atomics == balance_of(s, a, d).amount.atomics
                    + deposit_total(ds, a, d) && balance_of(s1, a, d).withheld == balance_of(
                    s,
                    a,
                    d,
                ).withheld
        },
    decreases ds.len(),
{
    if ds.len() > 0 {
        if let Flow::Go(s1) = credit_step(s, ds[0]) {
            lemma_credit_all_credits(s1, ds.drop_first());
            if let Flow::Go(s2) = credit_all(s1, ds.drop_first()) {
                assert forall|a: Seq<char>, d: Seq<char>|
                    #![trigger balance_of(s2, a, d)]
                    #![trigger deposit_total(ds, a, d)]
                    balance_of(s2, a, d).amount.atomics == balance_of(s, a, d).amount.atomics
                        + deposit_total(ds, a, d) && balance_of(s2, a, d).withheld == balance_of(
                        s,
                        a,
                        d,
                    ).withheld by {
                    assert(balance_of(s1, a, d) == balance_of(s1, a, d));
                    assert(deposit_total(ds.drop_first(), a, d) == deposit_total(ds.drop_first(), a, d));
                }
            }
        }
    }
}

/// The deposits of a batch of placements raise each account's balance of each
/// denom by exactly the deposits made for it, before any order of the batch is
/// placed; with no placement in the batch, nothing else changes of the balances.
pub proof fn law_batch_deposits_credit(s: StorageView, deposits: Seq<DepositInfo>)
    ensures
        placement_flow(s, seq![], seq![], deposits) matches Flow::Go((s1, _, rd)) ==> {
            &&& rd == Some(ResponseDataView::BulkOrderPlacements(seq![]))
            &&& s1.orders == s.orders
            &&& forall|a: Seq<char>, d: Seq<char>|
                #![trigger balance_of(s1, a, d)]
                balance_of(s1, a, d).amount.atomics == balance_of(s, a, d).amount.atomics
                    + deposit_total(deposits, a, d) && balance_of(s1, a, d).withheld == balance_of(
                    s,
                    a,
                    d,
                ).withheld
        },
{
    lemma_credit_all_credits(s, deposits);
    if let Flow::Go(s0) = credit_all(s, deposits) {
        assert(place_all(s0, seq![], Seq::<OrderPlacement>::empty(), Seq::<Option<OrderData>>::empty())
            == Flow::Go((s0, Seq::<(u64, Seq<char>)>::empty())));
    }
}

} // verus!
