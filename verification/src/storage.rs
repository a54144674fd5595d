//! The contract's storage: the balances keyed by account and denom, the orders
//! keyed by id, the orders keyed by account and id, and the contract's name and
//! version. Each table is a vector of records with distinct keys, viewed as a map.
use vstd::prelude::*;
use crate::state::{Balance, Order};

verus! {

/// A balance under its account and denom.
pub struct BalanceRecord {
    pub account: String,
    pub denom: String,
    pub balance: Balance,
}

/// An order under its id.
pub struct OrderRecord {
    pub id: u64,
    pub order: Order,
}

/// An order under its account and id.
pub struct AccountOrderRecord {
    pub account: String,
    pub id: u64,
    pub order: Order,
}

/// The name and version of the contract that wrote this storage.
pub struct ContractVersion {
    pub contract: String,
    pub version: String,
}

/// The mathematical value of the storage.
pub struct StorageView {
    pub balances: Map<(Seq<char>, Seq<char>), Balance>,
    pub orders: Map<u64, Order>,
    pub account_orders: Map<(Seq<char>, u64), Order>,
    pub version: Option<(Seq<char>, Seq<char>)>,
}

pub struct Storage {
    balances: Vec<BalanceRecord>,
    orders: Vec<OrderRecord>,
    account_orders: Vec<AccountOrderRecord>,
    version: Option<ContractVersion>,
    balance_map: Ghost<Map<(Seq<char>, Seq<char>), Balance>>,
    order_map: Ghost<Map<u64, Order>>,
    account_order_map: Ghost<Map<(Seq<char>, u64), Order>>,
}

pub open spec fn balance_key(r: BalanceRecord) -> (Seq<char>, Seq<char>) {
    (r.account@, r.denom@)
}

pub open spec fn account_order_key(r: AccountOrderRecord) -> (Seq<char>, u64) {
    (r.account@, r.id)
}

pub open spec fn version_view(v: Option<ContractVersion>) -> Option<(Seq<char>, Seq<char>)> {
    match v {
        Some(cv) => Some((cv.contract@, cv.version@)),
        None => None,
    }
}

/// The records hold distinct keys and list exactly the entries of the map:
/// the record `r` stands for the entry `key(r) => val(r)`.
pub open spec fn records_match<R, K, V>(
    recs: Seq<R>,
    key: spec_fn(R) -> K,
    val: spec_fn(R) -> V,
    m: Map<K, V>,
) -> bool {
    &&& forall|i: int, j: int|
        0 <= i < j < recs.len() ==> key(#[trigger] recs[i]) != key(#[trigger] recs[j])
    &&& forall|i: int|
        0 <= i < recs.len() ==> m.contains_key(key(#[trigger] recs[i])) && m[key(recs[i])] == val(
            recs[i],
        )
    &&& forall|k: K|
        #[trigger] m.contains_key(k) ==> exists|i: int| 0 <= i < recs.len() && key(#[trigger] recs[i]) == k
}

/// Replacing a record by one with the same key replaces the entry of that key.
pub proof fn lemma_records_set<R, K, V>(
    recs: Seq<R>,
    key: spec_fn(R) -> K,
    val: spec_fn(R) -> V,
    m: Map<K, V>,
    i: int,
    r: R,
)
    requires
        records_match(recs, key, val, m),
        0 <= i < recs.len(),
        key(recs[i]) == key(r),
    ensures
        records_match(recs.update(i, r), key, val, m.insert(key(r), val(r))),
{
    let recs1 = recs.update(i, r);
    let m1 = m.insert(key(r), val(r));
    assert forall|k: K| #[trigger] m1.contains_key(k) implies exists|j: int|
        0 <= j < recs1.len() && key(#[trigger] recs1[j]) == k by {
        if k != key(r) {
            let j = choose|j: int| 0 <= j < recs.len() && key(recs[j]) == k;
            assert(key(recs1[j]) == k);
        } else {
            assert(key(recs1[i]) == k);
        }
    }
}

/// Adding a record under a new key adds its entry.
pub proof fn lemma_records_push<R, K, V>(
    recs: Seq<R>,
    key: spec_fn(R) -> K,
    val: spec_fn(R) -> V,
    m: Map<K, V>,
    r: R,
)
    requires
        records_match(recs, key, val, m),
        !m.contains_key(key(r)),
    ensures
        records_match(recs.push(r), key, val, m.insert(key(r), val(r))),
{
    let recs1 = recs.push(r);
    let m1 = m.insert(key(r), val(r));
    let n = recs.len() as int;
    assert forall|k: K| #[trigger] m1.contains_key(k) implies exists|j: int|
        0 <= j < recs1.len() && key(#[trigger] recs1[j]) == k by {
        if k != key(r) {
            let j = choose|j: int| 0 <= j < recs.len() && key(recs[j]) == k;
            assert(key(recs1[j]) == k);
        } else {
            assert(key(recs1[n]) == k);
        }
    }
    assert forall|a: int, b: int| 0 <= a < b < recs1.len() implies key(#[trigger] recs1[a]) != key(
        #[trigger] recs1[b],
    ) by {
        if b == n {
            assert(recs[a] == recs1[a]);
        }
    }
}

/// Removing a record removes the entry of its key.
pub proof fn lemma_records_remove<R, K, V>(
    recs: Seq<R>,
    key: spec_fn(R) -> K,
    val: spec_fn(R) -> V,
    m: Map<K, V>,
    i: int,
)
    requires
        records_match(recs, key, val, m),
        0 <= i < recs.len(),
    ensures
        records_match(recs.remove(i), key, val, m.remove(key(recs[i]))),
{
    let recs1 = recs.remove(i);
    let m1 = m.remove(key(recs[i]));
    assert forall|a: int, b: int| 0 <= a < b < recs1.len() implies key(#[trigger] recs1[a]) != key(
        #[trigger] recs1[b],
    ) by {
        let a0 = if a < i { a } else { a + 1 };
        let b0 = if b < i { b } else { b + 1 };
        assert(recs[a0] == recs1[a]);
        assert(recs[b0] == recs1[b]);
    }
    assert forall|j: int| 0 <= j < recs1.len() implies m1.contains_key(key(#[trigger] recs1[j]))
        && m1[key(recs1[j])] == val(recs1[j]) by {
        let j0 = if j < i { j } else { j + 1 };
        assert(recs[j0] == recs1[j]);
        assert(key(recs[j0]) != key(recs[i]));
    }
    assert forall|k: K| #[trigger] m1.contains_key(k) implies exists|j: int|
        0 <= j < recs1.len() && key(#[trigger] recs1[j]) == k by {
        let j0 = choose|j: int| 0 <= j < recs.len() && key(recs[j]) == k;
        assert(j0 != i);
        let j = if j0 < i { j0 } else { j0 - 1 };
        assert(recs[j0] == recs1[j]);
    }
}

pub open spec fn balance_key_fn() -> spec_fn(BalanceRecord) -> (Seq<char>, Seq<char>) {
    |r: BalanceRecord| balance_key(r)
}

pub open spec fn balance_val_fn() -> spec_fn(BalanceRecord) -> Balance {
    |r: BalanceRecord| r.balance
}

pub open spec fn order_key_fn() -> spec_fn(OrderRecord) -> u64 {
    |r: OrderRecord| r.id
}

pub open spec fn order_val_fn() -> spec_fn(OrderRecord) -> Order {
    |r: OrderRecord| r.order
}

pub open spec fn account_order_key_fn() -> spec_fn(AccountOrderRecord) -> (Seq<char>, u64) {
    |r: AccountOrderRecord| account_order_key(r)
}

pub open spec fn account_order_val_fn() -> spec_fn(AccountOrderRecord) -> Order {
    |r: AccountOrderRecord| r.order
}

/// The balance records list exactly the balances of the map, each key once.
pub open spec fn balances_match(
    recs: Seq<BalanceRecord>,
    m: Map<(Seq<char>, Seq<char>), Balance>,
) -> bool {
    records_match(recs, balance_key_fn(), balance_val_fn(), m)
}

/// The order records list exactly the orders of the map, each id once.
pub open spec fn orders_match(recs: Seq<OrderRecord>, m: Map<u64, Order>) -> bool {
    records_match(recs, order_key_fn(), order_val_fn(), m)
}

/// The index records list exactly the entries of the map, each key once.
pub open spec fn account_orders_match(
    recs: Seq<AccountOrderRecord>,
    m: Map<(Seq<char>, u64), Order>,
) -> bool {
    records_match(recs, account_order_key_fn(), account_order_val_fn(), m)
}

impl View for Storage {
    type V = StorageView;

    closed spec fn view(&self) -> StorageView {
        StorageView {
            balances: self.balance_map@,
            orders: self.order_map@,
            account_orders: self.account_order_map@,
            version: version_view(self.version),
        }
    }
}

impl Storage {
    /// The storage's records agree with its maps.
    pub closed spec fn wf(&self) -> bool {
        &&& balances_match(self.balances@, self.balance_map@)
        &&& orders_match(self.orders@, self.order_map@)
        &&& account_orders_match(self.account_orders@, self.account_order_map@)
    }

    /// An empty storage.
    pub fn new() -> (r: Storage)
        ensures
            r.wf(),
            r@.balances == Map::<(Seq<char>, Seq<char>), Balance>::empty(),
            r@.orders == Map::<u64, Order>::empty(),
            r@.account_orders == Map::<(Seq<char>, u64), Order>::empty(),
            r@.version is None,
    {
        Storage {
            balances: Vec::new(),
            orders: Vec::new(),
            account_orders: Vec::new(),
            version: None,
            balance_map: Ghost(Map::empty()),
            order_map: Ghost(Map::empty()),
            account_order_map: Ghost(Map::empty()),
        }
    }

    fn find_balance(&self, account: &String, denom: &String) -> (r: Option<usize>)
        requires
            self.wf(),
        ensures
            r matches Some(i) ==> i < self.balances@.len() && balance_key(self.balances@[i as int])
                == (account@, denom@),
            r is None ==> !self@.balances.contains_key((account@, denom@)),
    {
        let mut i: usize = 0;
        while i < self.balances.len()
            invariant
                self.wf(),
                i <= self.balances@.len(),
                forall|j: int| 0 <= j < i ==> balance_key(#[trigger] self.balances@[j]) != (account@, denom@),
            decreases self.balances@.len() - i,
        {
            if self.balances[i].account == *account && self.balances[i].denom == *denom {
                return Some(i);
            }
            i = i + 1;
        }
        None
    }

    /// The balance stored under `(account, denom)`, if any.
    pub fn balance_entry(&self, account: &String, denom: &String) -> (r: Option<Balance>)
        requires
            self.wf(),
        ensures
            r == self@.balances.get((account@, denom@)),
    {
        match self.find_balance(account, denom) {
            Some(i) => Some(self.balances[i].balance),
            None => None,
        }
    }

    /// Stores `balance` under `(account, denom)`, replacing what was there.
    pub fn store_balance(&mut self, account: String, denom: String, balance: Balance)
        requires
            old(self).wf(),
        ensures
            final(self).wf(),
            final(self)@.balances == old(self)@.balances.insert((account@, denom@), balance),
            final(self)@.orders == old(self)@.orders,
            final(self)@.account_orders == old(self)@.account_orders,
            final(self)@.version == old(self)@.version,
    {
        let ghost old_recs = self.balances@;
        let ghost new_map = self.balance_map@.insert((account@, denom@), balance);
        let rec = BalanceRecord { account, denom, balance };
        match self.find_balance(&rec.account, &rec.denom) {
            Some(i) => {
                proof {
                    lemma_records_set(
                        old_recs,
                        balance_key_fn(),
                        balance_val_fn(),
                        self.balance_map@,
                        i as int,
                        rec,
                    );
                }
                self.balances.set(i, rec);
            },
            None => {
                proof {
                    lemma_records_push(old_recs, balance_key_fn(), balance_val_fn(), self.balance_map@, rec);
                }
                self.balances.push(rec);
            },
        }
        self.balance_map = Ghost(new_map);
    }

    fn find_order(&self, id: u64) -> (r: Option<usize>)
        requires
            self.wf(),
        ensures
            r matches Some(i) ==> i < self.orders@.len() && self.orders@[i as int].id == id,
            r is None ==> !self@.orders.contains_key(id),
    {
        let mut i: usize = 0;
        while i < self.orders.len()
            invariant
                self.wf(),
                i <= self.orders@.len(),
                forall|j: int| 0 <= j < i ==> (#[trigger] self.orders@[j]).id != id,
            decreases self.orders@.len() - i,
        {
            if self.orders[i].id == id {
                return Some(i);
            }
            i = i + 1;
        }
        None
    }

    /// A copy of the order stored under `id`, if any.
    pub fn order_entry(&self, id: u64) -> (r: Option<Order>)
        requires
            self.wf(),
        ensures
            r == self@.orders.get(id),
    {
        match self.find_order(id) {
            Some(i) => Some(self.orders[i].order.copy()),
            None => None,
        }
    }

    /// Stores `order` under `id`, replacing what was there.
    pub fn store_order(&mut self, id: u64, order: Order)
        requires
            old(self).wf(),
        ensures
            final(self).wf(),
            final(self)@.orders == old(self)@.orders.insert(id, order),
            final(self)@.balances == old(self)@.balances,
            final(self)@.account_orders == old(self)@.account_orders,
            final(self)@.version == old(self)@.version,
    {
        let ghost old_recs = self.orders@;
        let ghost new_map = self.order_map@.insert(id, order);
        let rec = OrderRecord { id, order };
        match self.find_order(id) {
            Some(i) => {
                proof {
                    lemma_records_set(old_recs, order_key_fn(), order_val_fn(), self.order_map@, i as int, rec);
                }
                self.orders.set(i, rec);
            },
            None => {
                proof {
                    lemma_records_push(old_recs, order_key_fn(), order_val_fn(), self.order_map@, rec);
                }
                self.orders.push(rec);
            },
        }
        self.order_map = Ghost(new_map);
    }

    /// Removes the order stored under `id`, if any.
    pub fn remove_order(&mut self, id: u64)
        requires
            old(self).wf(),
        ensures
            final(self).wf(),
            final(self)@.orders == old(self)@.orders.remove(id),
            final(self)@.balances == old(self)@.balances,
            final(self)@.account_orders == old(self)@.account_orders,
            final(self)@.version == old(self)@.version,
    {
        let ghost old_recs = self.orders@;
        let ghost new_map = self.order_map@.remove(id);
        match self.find_order(id) {
            Some(i) => {
                proof {
                    lemma_records_remove(old_recs, order_key_fn(), order_val_fn(), self.order_map@, i as int);
                }
                let _ = self.orders.remove(i);
                self.order_map = Ghost(new_map);
            },
            None => {
                assert(new_map =~= self.order_map@);
            },
        }
    }

    fn find_account_order(&self, account: &String, id: u64) -> (r: Option<usize>)
        requires
            self.wf(),
        ensures
            r matches Some(i) ==> i < self.account_orders@.len() && account_order_key(
                self.account_orders@[i as int],
            ) == (account@, id),
            r is None ==> !self@.account_orders.contains_key((account@, id)),
    {
        let mut i: usize = 0;
        while i < self.account_orders.len()
            invariant
                self.wf(),
                i <= self.account_orders@.len(),
                forall|j: int|
                    0 <= j < i ==> account_order_key(#[trigger] self.account_orders@[j]) != (account@, id),
            decreases self.account_orders@.len() - i,
        {
            if self.account_orders[i].id == id && self.account_orders[i].account == *account {
                return Some(i);
            }
            i = i + 1;
        }
        None
    }

    /// A copy of the order stored under `(account, id)` in the account index, if any.
    pub fn account_order_entry(&self, account: &String, id: u64) -> (r: Option<Order>)
        requires
            self.wf(),
        ensures
            r == self@.account_orders.get((account@, id)),
    {
        match self.find_account_order(account, id) {
            Some(i) => Some(self.account_orders[i].order.copy()),
            None => None,
        }
    }

    /// Stores `order` under `(account, id)` in the account index, replacing what was there.
    pub fn store_account_order(&mut self, account: String, id: u64, order: Order)
        requires
            old(self).wf(),
        ensures
            final(self).wf(),
            final(self)@.account_orders == old(self)@.account_orders.insert((account@, id), order),
            final(self)@.balances == old(self)@.balances,
            final(self)@.orders == old(self)@.orders,
            final(self)@.version == old(self)@.version,
    {
        let ghost old_recs = self.account_orders@;
        let ghost new_map = self.account_order_map@.insert((account@, id), order);
        let rec = AccountOrderRecord { account, id, order };
        match self.find_account_order(&rec.account, id) {
            Some(i) => {
                proof {
                    lemma_records_set(
                        old_recs,
                        account_order_key_fn(),
                        account_order_val_fn(),
                        self.account_order_map@,
                        i as int,
                        rec,
                    );
                }
                self.account_orders.set(i, rec);
            },
            None => {
                proof {
                    lemma_records_push(
                        old_recs,
                        account_order_key_fn(),
                        account_order_val_fn(),
                        self.account_order_map@,
                        rec,
                    );
                }
                self.account_orders.push(rec);
            },
        }
        self.account_order_map = Ghost(new_map);
    }

    /// The name and version of the contract that wrote this storage, if recorded.
    pub fn contract_version(&self) -> (r: Option<(String, String)>)
        ensures
            r matches Some(p) ==> self@.version == Some((p.0@, p.1@)),
            r is None ==> self@.version is None,
    {
        match &self.version {
            Some(cv) => Some((cv.contract.clone(), cv.version.clone())),
            None => None,
        }
    }

    /// Records the name and version of the contract.
    pub fn set_contract_version(&mut self, contract: String, version: String)
        requires
            old(self).wf(),
        ensures
            final(self).wf(),
            final(self)@.version == Some((contract@, version@)),
            final(self)@.balances == old(self)@.balances,
            final(self)@.orders == old(self)@.orders,
            final(self)@.account_orders == old(self)@.account_orders,
    {
        self.version = Some(ContractVersion { contract, version });
    }
    /// The balance records, each key once, listing exactly the stored balances.
    pub fn balance_records(&self) -> (r: &Vec<BalanceRecord>)
        requires
            self.wf(),
        ensures
            balances_match(r@, self@.balances),
    {
        &self.balances
    }

    /// The order records, each id once, listing exactly the stored orders.
    pub fn order_records(&self) -> (r: &Vec<OrderRecord>)
        requires
            self.wf(),
        ensures
            orders_match(r@, self@.orders),
    {
        &self.orders
    }

    /// The account index records, each key once, listing exactly the indexed orders.
    pub fn account_order_records(&self) -> (r: &Vec<AccountOrderRecord>)
        requires
            self.wf(),
        ensures
            account_orders_match(r@, self@.account_orders),
    {
        &self.account_orders
    }
}

} // verus!
