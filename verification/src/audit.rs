//! Decides whether a book is well formed: what a caller tests before it
//! hands the engine a book that it has put together itself.

use crate::book::OrderBook;
use vstd::prelude::*;

verus! {

impl OrderBook {
    fn addresses_differ(&self) -> (r: bool)
        ensures
            r == self@.addresses_differ(),
    {
        let mut v: usize = 0;
        while v < self.users.len()
            invariant
                v <= self.users.len(),
                forall|a: int, b: int|
                    0 <= a < b < v ==> self@.users[a].address != self@.users[b].address,
            decreases self.users.len() - v,
        {
            let mut u: usize = 0;
            while u < v
                invariant
                    u <= v < self.users.len(),
                    forall|a: int| 0 <= a < u ==> self@.users[a].address != self@.users[v as int].address,
                decreases v - u,
            {
                if self.users[u].address == self.users[v].address {
                    assert(self@.users[u as int].address == self@.users[v as int].address);
                    return false;
                }
                u += 1;
            }
            v += 1;
        }
        true
    }

    fn orders_sound(&self) -> (r: bool)
        ensures
            r == self@.orders_sound(),
    {
        let mut i: usize = 0;
        while i < self.orders.len()
            invariant
                i <= self.orders.len(),
                forall|j: int|
                    0 <= j < i ==> (#[trigger] self@.orders[j]).wf() && self@.orders[j].owner
                        < self@.users.len(),
            decreases self.orders.len() - i,
        {
            if !self.orders[i].is_well_formed() || self.orders[i].owner >= self.users.len() {
                assert(self@.is_order(i as int));
                return false;
            }
            i += 1;
        }
        true
    }

    fn slots_match(&self) -> (r: bool)
        requires
            self@.orders_sound(),
        ensures
            r == self@.slots_match(),
    {
        let mut i: usize = 0;
        while i < self.orders.len()
            invariant
                i <= self.orders.len(),
                self@.orders_sound(),
                forall|j: int|
                    0 <= j < i ==> ((#[trigger] self@.orders[j]).status.is_open()
                        <==> self@.users[self@.orders[j].owner as int].active == Some(j as u128)),
            decreases self.orders.len() - i,
        {
            assert(self@.is_order(i as int));
            let order = self.orders[i];
            assert(order == self@.orders[i as int]);
            let in_slot = match self.users[order.owner].orders.active_order {
                Some(id) => id == i as u128,
                None => false,
            };
            assert(in_slot == (self@.users[order.owner as int].active == Some(i as u128)));
            if in_slot != order.status.open() {
                return false;
            }
            i += 1;
        }
        true
    }

    fn actives_sound(&self) -> (r: bool)
        ensures
            r == self@.actives_sound(),
    {
        let mut u: usize = 0;
        while u < self.users.len()
            invariant
                u <= self.users.len(),
                forall|v: int|
                    0 <= v < u ==> ((#[trigger] self@.users[v]).active matches Some(id)
                        ==> self@.is_order(id as int) && self@.orders[id as int].owner == v),
            decreases self.users.len() - u,
        {
            match self.users[u].orders.active_order {
                Some(id) => {
                    assert(self@.users[u as int].active == Some(id));
                    if id >= self.orders.len() as u128 {
                        return false;
                    }
                    if self.orders[id as usize].owner != u {
                        return false;
                    }
                },
                None => {},
            }
            u += 1;
        }
        true
    }

    fn history_sound(&self, u: usize) -> (r: bool)
        requires
            u < self.users.len(),
        ensures
            r == (forall|k: int|
                0 <= k < self@.users[u as int].history.len() ==> self@.archived(
                    u as int,
                    #[trigger] self@.users[u as int].history[k] as int,
                )),
    {
        let mut k: usize = 0;
        while k < self.users[u].orders.history_orders.len()
            invariant
                u < self.users.len(),
                k <= self@.users[u as int].history.len(),
                self@.users[u as int].history == self.users[u as int].orders.history_orders@,
                forall|j: int|
                    0 <= j < k ==> self@.archived(
                        u as int,
                        #[trigger] self@.users[u as int].history[j] as int,
                    ),
            decreases self.users[u as int].orders.history_orders.len() - k,
        {
            let id = self.users[u].orders.history_orders[k];
            assert(id == self@.users[u as int].history[k as int]);
            if id >= self.orders.len() as u128 {
                return false;
            }
            let order = self.orders[id as usize];
            if order.owner != u || order.status.open() {
                return false;
            }
            k += 1;
        }
        true
    }

    fn histories_sound(&self) -> (r: bool)
        ensures
            r == self@.histories_sound(),
    {
        let mut u: usize = 0;
        while u < self.users.len()
            invariant
                u <= self.users.len(),
                forall|v: int, k: int|
                    0 <= v < u && 0 <= k < self@.users[v].history.len() ==> self@.archived(
                        v,
                        #[trigger] self@.users[v].history[k] as int,
                    ),
            decreases self.users.len() - u,
        {
            if !self.history_sound(u) {
                return false;
            }
            u += 1;
        }
        true
    }

    fn history_unique(&self, u: usize) -> (r: bool)
        requires
            u < self.users.len(),
        ensures
            r == (forall|k: int, l: int|
                0 <= k < l < self@.users[u as int].history.len() ==> self@.users[u as int].history[k]
                    != self@.users[u as int].history[l]),
    {
        let ghost h = self@.users[u as int].history;
        let mut l: usize = 0;
        while l < self.users[u].orders.history_orders.len()
            invariant
                u < self.users.len(),
                h == self.users[u as int].orders.history_orders@,
                h == self@.users[u as int].history,
                l <= h.len(),
                forall|a: int, b: int| 0 <= a < b < l ==> h[a] != h[b],
            decreases h.len() - l,
        {
            let mut k: usize = 0;
            while k < l
                invariant
                    u < self.users.len(),
                    h == self.users[u as int].orders.history_orders@,
                    h == self@.users[u as int].history,
                    k <= l < h.len(),
                    forall|a: int| 0 <= a < k ==> h[a] != h[l as int],
                decreases l - k,
            {
                if self.users[u].orders.history_orders[k] == self.users[u].orders.history_orders[l] {
                    assert(h[k as int] == h[l as int]);
                    return false;
                }
                k += 1;
            }
            l += 1;
        }
        true
    }

    fn histories_unique(&self) -> (r: bool)
        ensures
            r == self@.histories_unique(),
    {
        let mut u: usize = 0;
        while u < self.users.len()
            invariant
                u <= self.users.len(),
                forall|v: int, k: int, l: int|
                    0 <= v < u && 0 <= k < l < self@.users[v].history.len()
                        ==> self@.users[v].history[k] != self@.users[v].history[l],
            decreases self.users.len() - u,
        {
            if !self.history_unique(u) {
                return false;
            }
            u += 1;
        }
        true
    }

    fn in_history(&self, u: usize, id: u128) -> (r: bool)
        requires
            u < self.users.len(),
        ensures
            r == self@.users[u as int].history.contains(id),
    {
        let ghost h = self@.users[u as int].history;
        let mut k: usize = 0;
        while k < self.users[u].orders.history_orders.len()
            invariant
                u < self.users.len(),
                h == self.users[u as int].orders.history_orders@,
                k <= h.len(),
                forall|j: int| 0 <= j < k ==> h[j] != id,
            decreases h.len() - k,
        {
            if self.users[u].orders.history_orders[k] == id {
                assert(h[k as int] == id);
                return true;
            }
            k += 1;
        }
        false
    }

    fn finals_archived(&self) -> (r: bool)
        requires
            self@.orders_sound(),
        ensures
            r == self@.finals_archived(),
    {
        let mut i: usize = 0;
        while i < self.orders.len()
            invariant
                i <= self.orders.len(),
                self@.orders_sound(),
                forall|j: int|
                    0 <= j < i && !(#[trigger] self@.orders[j]).status.is_open()
                        ==> self@.users[self@.orders[j].owner as int].history.contains(j as u128),
            decreases self.orders.len() - i,
        {
            assert(self@.is_order(i as int));
            let order = self.orders[i];
            assert(order == self@.orders[i as int]);
            if !order.status.open() && !self.in_history(order.owner, i as u128) {
                return false;
            }
            i += 1;
        }
        true
    }

    /// Decides whether the book is well formed.
    pub fn is_well_formed(&self) -> (r: bool)
        ensures
            r == self.wf(),
    {
        assert(self@.orders.len() == self.orders.len() && self@.users.len() == self.users.len());
        self.addresses_differ() && self.orders_sound() && self.slots_match()
            && self.actives_sound() && self.histories_sound() && self.histories_unique()
            && self.finals_archived()
    }
}

} // verus!
