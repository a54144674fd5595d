//! Orders by id, and the index of orders by account.
use vstd::prelude::*;
use crate::error::{StdError, StdErrorView};
use crate::not_found::{object_info, object_info_text, order_storage_key, order_storage_key_bytes};
use crate::state::Order;
use crate::storage::{Storage, StorageView};

verus! {

/// The kind named in the error for an order that is not stored: its type and
/// its storage key.
pub open spec fn order_kind(id: u64) -> Seq<char> {
    object_info_text("spot_lite::state::Order"@, order_storage_key(id))
}

/// The storage with `order` stored under its id and under its account and id.
pub open spec fn with_order(s: StorageView, order: Order) -> StorageView {
    StorageView {
        orders: s.orders.insert(order.id, order),
        account_orders: s.account_orders.insert((order.account@, order.id), order),
        ..s
    }
}

/// The storage without the order of id `id`; the account index keeps it.
pub open spec fn without_order(s: StorageView, id: u64) -> StorageView {
    StorageView { orders: s.orders.remove(id), ..s }
}

/// Stores `order` under its id and under its account and id.
pub fn save_order(storage: &mut Storage, order: &Order)
    requires
        old(storage).wf(),
    ensures
        final(storage).wf(),
        final(storage)@ == with_order(old(storage)@, *order),
{
    storage.store_order(order.id, order.copy());
    storage.store_account_order(order.account.clone(), order.id, order.copy());
}

/// The order of id `id`, or a not-found error.
pub fn get_order(storage: &Storage, id: u64) -> (r: Result<Order, StdError>)
    requires
        storage.wf(),
    ensures
        storage@.orders.contains_key(id) ==> r == Ok::<Order, StdError>(storage@.orders[id]),
        !storage@.orders.contains_key(id) ==> (r matches Err(e) && e@ == StdErrorView::NotFound(
            order_kind(id),
        )),
{
    match storage.order_entry(id) {
        Some(order) => Ok(order),
        None => {
            let key = order_storage_key_bytes(id);
            Err(StdError::NotFound { kind: object_info("spot_lite::state::Order", &key) })
        },
    }
}

/// Removes the order of id `id`, if there is one.
pub fn delete_order(storage: &mut Storage, id: u64)
    requires
        old(storage).wf(),
    ensures
        final(storage).wf(),
        final(storage)@ == without_order(old(storage)@, id),
{
    storage.remove_order(id);
}

} // verus!
