//! Balances by account and denom.
use vstd::prelude::*;
use crate::decimal::{spec_zero, Decimal};
use crate::state::Balance;
use crate::storage::{Storage, StorageView};

verus! {

/// The balance of an account that nothing was stored for.
pub open spec fn zero_balance() -> Balance {
    Balance { amount: spec_zero(), withheld: spec_zero() }
}

/// The balance of `account` in `denom`: what was stored, else zero.
pub open spec fn balance_of(s: StorageView, account: Seq<char>, denom: Seq<char>) -> Balance {
    match s.balances.get((account, denom)) {
        Some(b) => b,
        None => zero_balance(),
    }
}

/// The storage with `balance` stored for `account` in `denom`.
pub open spec fn with_balance(
    s: StorageView,
    account: Seq<char>,
    denom: Seq<char>,
    balance: Balance,
) -> StorageView {
    StorageView { balances: s.balances.insert((account, denom), balance), ..s }
}

/// Stores `balance` for `account` in the denom `symbol`.
pub fn save_balance(storage: &mut Storage, account: String, symbol: String, balance: &Balance)
    requires
        old(storage).wf(),
    ensures
        final(storage).wf(),
        final(storage)@ == with_balance(old(storage)@, account@, symbol@, *balance),
{
    storage.store_balance(account, symbol, *balance);
}

/// The balance of `account` in the denom `symbol`; zero where none was stored.
pub fn get_balance(storage: &Storage, account: String, symbol: String) -> (r: Balance)
    requires
        storage.wf(),
    ensures
        r == balance_of(storage@, account@, symbol@),
{
    match storage.balance_entry(&account, &symbol) {
        Some(balance) => balance,
        None => Balance { amount: Decimal::zero(), withheld: Decimal::zero() },
    }
}

} // verus!
