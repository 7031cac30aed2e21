use vstd::prelude::*;

use crate::error::{PetstoreError, PetstoreResult};
use crate::model::Order;
use crate::store::{ascending_keys, next_id, InMemoryDatabase};

verus! {

/// Reading an order back right after adding it gives the order that was
/// added, except that its identifier is now set.
pub proof fn law_get_after_add(before: Map<u64, Order>, order: Order)
    requires
        order.id is None,
    ensures
        ({
            let id = next_id(before.dom()) as u64;
            let after = before.insert(id, Order { id: Some(id), ..order });
            &&& after.contains_key(id)
            &&& after[id].id == Some(id)
            &&& Order { id: None, ..after[id] } == order
        }),
{
}

/// The orders placed in the store, keyed by their identifiers.
pub struct OrderRepository {
    orders: InMemoryDatabase<Order>,
}

impl View for OrderRepository {
    type V = Map<u64, Order>;

    closed spec fn view(&self) -> Map<u64, Order> {
        self.orders@
    }
}

impl OrderRepository {
    /// The store is consistent and each order carries the key it is stored under.
    pub closed spec fn wf(&self) -> bool {
        &&& self.orders.wf()
        &&& forall|k: u64| #[trigger] self.orders@.contains_key(k) ==> self.orders@[k].id == Some(k)
    }

    /// The underlying store, for its keys and its access state.
    pub closed spec fn database(&self) -> InMemoryDatabase<Order> {
        self.orders
    }

    /// What a well-formed repository guarantees of its entries.
    pub proof fn lemma_wf(&self)
        requires
            self.wf(),
        ensures
            ascending_keys(self@, self.database().keys()),
            forall|k: u64| #[trigger] self@.contains_key(k) ==> self@[k].id == Some(k),
    {
        self.orders.lemma_keys();
    }

    /// An empty repository.
    pub fn new() -> (r: Self)
        ensures
            r.wf(),
            r@ == Map::<u64, Order>::empty(),
            r.database().can_write(),
    {
        OrderRepository { orders: InMemoryDatabase::new() }
    }

    /// Whether `n` more orders can be given identifiers.
    pub fn has_ids_for(&self, n: u64) -> (r: bool)
        requires
            self.wf(),
        ensures
            r == (next_id(self@.dom()) + n <= u64::MAX + 1),
    {
        self.orders.has_ids_for(n)
    }

    /// The order stored under `id`, if any.
    pub fn get(&self, id: u64) -> (r: PetstoreResult<Option<Order>>)
        requires
            self.wf(),
        ensures
            r == (if !self.database().can_read() {
                Err::<Option<Order>, PetstoreError>(PetstoreError::AccessConflict)
            } else if self@.contains_key(id) {
                Ok(Some(self@[id]))
            } else {
                Ok(None)
            }),
    {
        self.orders.read()?;
        match self.orders.get(id) {
            Some(o) => Ok(Some(o.copy())),
            None => Ok(None),
        }
    }

    /// Stores `order` under the next identifier and returns it with that
    /// identifier set. A new order is told apart by its unset status: an
    /// order whose status is set is refused.
    pub fn add(&mut self, order: Order) -> (r: PetstoreResult<Order>)
        requires
            old(self).wf(),
            next_id(old(self)@.dom()) <= u64::MAX,
        ensures
            final(self).wf(),
            final(self).database().same_access(&old(self).database()),
            !old(self).database().can_write() ==> r == Err::<Order, PetstoreError>(
                PetstoreError::AccessConflict,
            ) && *final(self) == *old(self),
            old(self).database().can_write() && order.status is Some ==> r == Err::<
                Order,
                PetstoreError,
            >(PetstoreError::InvalidInput) && *final(self) == *old(self),
            old(self).database().can_write() && order.status is None ==> ({
                let id = next_id(old(self)@.dom()) as u64;
                &&& r == Ok::<Order, PetstoreError>(Order { id: Some(id), ..order })
                &&& final(self)@ == old(self)@.insert(id, Order { id: Some(id), ..order })
                &&& final(self).database().keys() == old(self).database().keys().push(id)
            }),
    {
        self.orders.write()?;
        if order.status.is_some() {
            return Err(PetstoreError::InvalidInput);
        }
        let id = self.orders.fresh_id();
        let mut order = order;
        order.id = Some(id);
        self.orders.insert_fresh(id, order.copy());
        Ok(order)
    }

    /// Removes the order stored under `id`, returning it; absence is no error.
    pub fn delete(&mut self, id: u64) -> (r: PetstoreResult<Option<Order>>)
        requires
            old(self).wf(),
        ensures
            final(self).wf(),
            final(self).database().same_access(&old(self).database()),
            !old(self).database().can_write() ==> r == Err::<Option<Order>, PetstoreError>(
                PetstoreError::AccessConflict,
            ) && *final(self) == *old(self),
            old(self).database().can_write() ==> final(self)@ == old(self)@.remove(id) && r == (
            if old(self)@.contains_key(id) {
                Ok::<Option<Order>, PetstoreError>(Some(old(self)@[id]))
            } else {
                Ok(None)
            }),
    {
        self.orders.write()?;
        let r = self.orders.remove(id);
        Ok(r)
    }
}

} // verus!
